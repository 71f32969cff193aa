//! Settings the engine is started with, and the ones that can be changed
//! while it runs.

use crate::ports::port_bounds;
use crate::text::{decimal, decimal_string, joined};
use core::ops::RangeInclusive;
use vstd::prelude::*;
use vstd::string::*;

verus! {

/// Logging level for logs generated by the engine.
#[derive(Debug, Copy, Clone, PartialEq, Eq, Structural, PartialOrd, Ord, Hash)]
pub enum WorkerLogLevel {
    /// Log all severities.
    Debug,
    /// Log "warn" and "error" severities.
    Warn,
    /// Log "error" severity.
    Error,
    /// Do not log anything.
    Off,
}

impl Default for WorkerLogLevel {
    fn default() -> (level: Self)
        ensures
            level == WorkerLogLevel::Error,
    {
        WorkerLogLevel::Error
    }
}

impl WorkerLogLevel {
    /// The lower-case word by which the engine knows this level.
    pub open spec fn name(self) -> Seq<char> {
        match self {
            WorkerLogLevel::Debug => "debug"@,
            WorkerLogLevel::Warn => "warn"@,
            WorkerLogLevel::Error => "error"@,
            WorkerLogLevel::Off => "none"@,
        }
    }

    /// Returns the lower-case word by which the engine knows this level.
    pub fn as_str(self) -> (word: &'static str)
        ensures
            word@ == self.name(),
    {
        match self {
            WorkerLogLevel::Debug => "debug",
            WorkerLogLevel::Warn => "warn",
            WorkerLogLevel::Error => "error",
            WorkerLogLevel::Off => "none",
        }
    }
}

/// Log tags for debugging.
#[derive(Debug, Copy, Clone, PartialEq, Eq, Structural, PartialOrd, Ord, Hash)]
pub enum WorkerLogTag {
    /// Logs about software/library versions, configuration and process information.
    Info,
    /// Logs about ICE.
    Ice,
    /// Logs about DTLS.
    Dtls,
    /// Logs about RTP.
    Rtp,
    /// Logs about SRTP encryption/decryption.
    Srtp,
    /// Logs about RTCP.
    Rtcp,
    /// Logs about RTP retransmission, including NACK/PLI/FIR.
    Rtx,
    /// Logs about transport bandwidth estimation.
    Bwe,
    /// Logs related to the scores of Producers and Consumers.
    Score,
    /// Logs about video simulcast.
    Simulcast,
    /// Logs about video SVC.
    Svc,
    /// Logs about SCTP (DataChannel).
    Sctp,
    /// Logs about messages (can be SCTP messages or direct messages).
    Message,
}

impl WorkerLogTag {
    /// The lower-case word by which the engine knows this tag.
    pub open spec fn name(self) -> Seq<char> {
        match self {
            WorkerLogTag::Info => "info"@,
            WorkerLogTag::Ice => "ice"@,
            WorkerLogTag::Dtls => "dtls"@,
            WorkerLogTag::Rtp => "rtp"@,
            WorkerLogTag::Srtp => "srtp"@,
            WorkerLogTag::Rtcp => "rtcp"@,
            WorkerLogTag::Rtx => "rtx"@,
            WorkerLogTag::Bwe => "bwe"@,
            WorkerLogTag::Score => "score"@,
            WorkerLogTag::Simulcast => "simulcast"@,
            WorkerLogTag::Svc => "svc"@,
            WorkerLogTag::Sctp => "sctp"@,
            WorkerLogTag::Message => "message"@,
        }
    }

    /// Returns the lower-case word by which the engine knows this tag.
    pub fn as_str(self) -> (word: &'static str)
        ensures
            word@ == self.name(),
    {
        match self {
            WorkerLogTag::Info => "info",
            WorkerLogTag::Ice => "ice",
            WorkerLogTag::Dtls => "dtls",
            WorkerLogTag::Rtp => "rtp",
            WorkerLogTag::Srtp => "srtp",
            WorkerLogTag::Rtcp => "rtcp",
            WorkerLogTag::Rtx => "rtx",
            WorkerLogTag::Bwe => "bwe",
            WorkerLogTag::Score => "score",
            WorkerLogTag::Simulcast => "simulcast",
            WorkerLogTag::Svc => "svc",
            WorkerLogTag::Sctp => "sctp",
            WorkerLogTag::Message => "message",
        }
    }
}

/// `Clone::clone` of std's `RangeInclusive`: nothing is claimed of the copy.
pub assume_specification<Idx: Clone>[ <RangeInclusive<Idx> as Clone>::clone ](
    range: &RangeInclusive<Idx>,
) -> (copy: RangeInclusive<Idx>)
;

/// DTLS certificate and private key.
#[derive(Debug, Clone)]
pub struct WorkerDtlsFiles {
    /// Path to the DTLS public certificate file in PEM format.
    pub certificate: String,
    /// Path to the DTLS certificate private key file in PEM format.
    pub private_key: String,
}

/// Settings for an engine to be started with.
#[derive(Debug, Clone)]
#[non_exhaustive]
pub struct WorkerSettings {
    /// Logging level for logs generated by the engine.
    pub log_level: WorkerLogLevel,
    /// Log tags for debugging.
    pub log_tags: Vec<WorkerLogTag>,
    /// RTC ports range for ICE, DTLS, RTP, etc.
    pub rtc_ports_range: RangeInclusive<u16>,
    /// DTLS certificate and private key.
    ///
    /// If `None`, a certificate is dynamically created.
    pub dtls_files: Option<WorkerDtlsFiles>,
    /// Field trials for libwebrtc. An invalid value makes the engine crash.
    pub libwebrtc_field_trials: Option<String>,
}

/// Why an engine could not be started.
#[derive(Debug, Copy, Clone, PartialEq, Eq, Structural)]
pub enum StartErrorKind {
    /// The settings cannot be used.
    InvalidInput,
    /// The engine was gone before it was ready.
    NotFound,
    /// Anything else.
    Other,
}

/// The failure of a start, with its message.
#[derive(Debug, Clone, PartialEq, Eq)]
pub struct StartError {
    /// The class of the failure.
    pub kind: StartErrorKind,
    /// What went wrong, in words.
    pub message: String,
}

/// All the log tags, in the order in which the default settings name them.
pub open spec fn all_log_tags() -> Seq<WorkerLogTag> {
    seq![
        WorkerLogTag::Info,
        WorkerLogTag::Ice,
        WorkerLogTag::Dtls,
        WorkerLogTag::Rtp,
        WorkerLogTag::Srtp,
        WorkerLogTag::Rtcp,
        WorkerLogTag::Rtx,
        WorkerLogTag::Bwe,
        WorkerLogTag::Score,
        WorkerLogTag::Simulcast,
        WorkerLogTag::Svc,
        WorkerLogTag::Sctp,
        WorkerLogTag::Message,
    ]
}

/// The views of a sequence of strings.
pub open spec fn texts(strings: Seq<String>) -> Seq<Seq<char>> {
    strings.map_values(|s: String| s@)
}

/// One `--logTag=` argument for each tag, in order.
pub open spec fn log_tag_args(tags: Seq<WorkerLogTag>) -> Seq<Seq<char>> {
    tags.map_values(|tag: WorkerLogTag| "--logTag="@ + tag.name())
}

/// The two arguments that name the DTLS files, or none.
pub open spec fn dtls_args(files: Option<WorkerDtlsFiles>) -> Seq<Seq<char>> {
    match files {
        Some(files) => seq![
            "--dtlsCertificateFile="@ + files.certificate@,
            "--dtlsPrivateKeyFile="@ + files.private_key@,
        ],
        None => Seq::empty(),
    }
}

/// The argument that carries the field trials, or none.
pub open spec fn field_trials_args(trials: Option<String>) -> Seq<Seq<char>> {
    match trials {
        Some(trials) => seq!["--libwebrtcFieldTrials="@ + trials@],
        None => Seq::empty(),
    }
}

/// Appending a string appends its view.
pub proof fn lemma_texts_push(strings: Seq<String>, last: String)
    ensures
        texts(strings.push(last)) == texts(strings).push(last@),
{
    assert(texts(strings.push(last)) =~= texts(strings).push(last@));
}

/// One more tag gives one more argument.
pub proof fn lemma_log_tag_args_push(tags: Seq<WorkerLogTag>, last: WorkerLogTag)
    ensures
        log_tag_args(tags.push(last)) == log_tag_args(tags).push("--logTag="@ + last.name()),
{
    assert(log_tag_args(tags.push(last)) =~= log_tag_args(tags).push(
        "--logTag="@ + last.name(),
    ));
}

impl Default for WorkerSettings {
    fn default() -> (settings: Self)
        ensures
            settings.log_level == WorkerLogLevel::Debug,
            settings.log_tags@ == all_log_tags(),
            settings.rtc_ports_range@.start == 10000,
            settings.rtc_ports_range@.end == 59999,
            !settings.rtc_ports_range@.exhausted,
            settings.dtls_files is None,
            settings.libwebrtc_field_trials is None,
    {
        let mut log_tags: Vec<WorkerLogTag> = Vec::new();
        log_tags.push(WorkerLogTag::Info);
        log_tags.push(WorkerLogTag::Ice);
        log_tags.push(WorkerLogTag::Dtls);
        log_tags.push(WorkerLogTag::Rtp);
        log_tags.push(WorkerLogTag::Srtp);
        log_tags.push(WorkerLogTag::Rtcp);
        log_tags.push(WorkerLogTag::Rtx);
        log_tags.push(WorkerLogTag::Bwe);
        log_tags.push(WorkerLogTag::Score);
        log_tags.push(WorkerLogTag::Simulcast);
        log_tags.push(WorkerLogTag::Svc);
        log_tags.push(WorkerLogTag::Sctp);
        log_tags.push(WorkerLogTag::Message);
        assert(log_tags@ =~= all_log_tags());
        WorkerSettings {
            log_level: WorkerLogLevel::Debug,
            log_tags,
            rtc_ports_range: RangeInclusive::new(10000u16, 59999u16),
            dtls_files: None,
            libwebrtc_field_trials: None,
        }
    }
}

impl WorkerSettings {
    /// Whether the port range holds at least one port.
    pub open spec fn ports_usable(&self) -> bool {
        !self.rtc_ports_range@.exhausted && self.rtc_ports_range@.start
            <= self.rtc_ports_range@.end
    }

    /// The invocation arguments these settings stand for: an empty program
    /// name, the log level, one argument per log tag, the two port bounds,
    /// then the DTLS files and the field trials where they are given.
    pub open spec fn spawn_args_spec(&self) -> Seq<Seq<char>> {
        seq![Seq::<char>::empty(), "--logLevel="@ + self.log_level.name()] + log_tag_args(
            self.log_tags@,
        ) + seq![
            "--rtcMinPort="@ + decimal(self.rtc_ports_range@.start as nat),
            "--rtcMaxPort="@ + decimal(self.rtc_ports_range@.end as nat),
        ] + dtls_args(self.dtls_files) + field_trials_args(self.libwebrtc_field_trials)
    }

    /// Builds the engine's invocation arguments, or refuses an empty port
    /// range.
    pub fn spawn_args(&self) -> (outcome: Result<Vec<String>, StartError>)
        ensures
            outcome is Ok <==> self.ports_usable(),
            outcome matches Ok(args) ==> texts(args@) == self.spawn_args_spec(),
            outcome matches Err(error) ==> error.kind == StartErrorKind::InvalidInput
                && error.message@ == "Invalid RTC ports range"@,
    {
        let (min_port, max_port) = match port_bounds(&self.rtc_ports_range) {
            Some(bounds) => bounds,
            None => {
                return Err(
                    StartError {
                        kind: StartErrorKind::InvalidInput,
                        message: String::from_str("Invalid RTC ports range"),
                    },
                );
            },
        };
        let mut args: Vec<String> = Vec::new();
        let ghost mut expected: Seq<Seq<char>> = Seq::empty();
        assert(texts(args@) =~= expected);
        let program = String::new();
        proof {
            lemma_texts_push(args@, program);
            expected = expected.push(Seq::<char>::empty());
        }
        args.push(program);
        let level = joined("--logLevel=", self.log_level.as_str());
        proof {
            lemma_texts_push(args@, level);
            expected = expected.push("--logLevel="@ + self.log_level.name());
        }
        args.push(level);
        let ghost head = seq![Seq::<char>::empty(), "--logLevel="@ + self.log_level.name()];
        assert(expected =~= head + log_tag_args(self.log_tags@.subrange(0, 0)));
        let mut i: usize = 0;
        while i < self.log_tags.len()
            invariant
                i <= self.log_tags.len(),
                texts(args@) == expected,
                expected == head + log_tag_args(self.log_tags@.subrange(0, i as int)),
            decreases self.log_tags.len() - i,
        {
            let tag = joined("--logTag=", self.log_tags[i].as_str());
            proof {
                lemma_texts_push(args@, tag);
                lemma_log_tag_args_push(self.log_tags@.subrange(0, i as int), self.log_tags@[i as int]);
                assert(self.log_tags@.subrange(0, i as int).push(self.log_tags@[i as int])
                    =~= self.log_tags@.subrange(0, i as int + 1));
                assert(expected.push(tag@) =~= head + log_tag_args(
                    self.log_tags@.subrange(0, i as int),
                ).push(tag@));
                expected = expected.push(tag@);
            }
            args.push(tag);
            i = i + 1;
        }
        assert(self.log_tags@.subrange(0, i as int) =~= self.log_tags@);
        let low = joined("--rtcMinPort=", decimal_string(min_port as u64).as_str());
        proof {
            lemma_texts_push(args@, low);
            expected = expected.push(low@);
        }
        args.push(low);
        let high = joined("--rtcMaxPort=", decimal_string(max_port as u64).as_str());
        proof {
            lemma_texts_push(args@, high);
            expected = expected.push(high@);
        }
        args.push(high);
        match &self.dtls_files {
            Some(files) => {
                let certificate = joined("--dtlsCertificateFile=", files.certificate.as_str());
                proof {
                    lemma_texts_push(args@, certificate);
                    expected = expected.push(certificate@);
                }
                args.push(certificate);
                let private_key = joined("--dtlsPrivateKeyFile=", files.private_key.as_str());
                proof {
                    lemma_texts_push(args@, private_key);
                    expected = expected.push(private_key@);
                }
                args.push(private_key);
            },
            None => {},
        }
        match &self.libwebrtc_field_trials {
            Some(trials) => {
                let field_trials = joined("--libwebrtcFieldTrials=", trials.as_str());
                proof {
                    lemma_texts_push(args@, field_trials);
                    expected = expected.push(field_trials@);
                }
                args.push(field_trials);
            },
            None => {},
        }
        assert(expected =~= self.spawn_args_spec());
        Ok(args)
    }
}

/// Worker settings that can be updated in runtime.
#[derive(Debug, Clone)]
#[non_exhaustive]
pub struct WorkerUpdateSettings {
    /// Logging level for logs generated by the engine.
    ///
    /// If `None`, logging level will not be updated.
    pub log_level: Option<WorkerLogLevel>,
    /// Log tags for debugging.
    ///
    /// If `None`, log tags will not be updated.
    pub log_tags: Option<Vec<WorkerLogTag>>,
}

impl Default for WorkerUpdateSettings {
    fn default() -> (settings: Self)
        ensures
            settings.log_level is None,
            settings.log_tags is None,
    {
        WorkerUpdateSettings { log_level: None, log_tags: None }
    }
}

/// The fields of a request that updates the settings: only those that are
/// present are changed on the engine's side.
#[derive(Debug, PartialEq, Eq)]
pub struct UpdateSettingsFields {
    /// The word of the new log level, if it is to change.
    pub log_level: Option<String>,
    /// The words of the new log tags, if they are to change.
    pub log_tags: Option<Vec<String>>,
}

/// The words of a sequence of log tags.
pub open spec fn log_tag_names(tags: Seq<WorkerLogTag>) -> Seq<Seq<char>> {
    tags.map_values(|tag: WorkerLogTag| tag.name())
}

impl WorkerUpdateSettings {
    /// Builds the fields of the update request: the word of the level where
    /// a level is given, the words of the tags, in order, where tags are
    /// given, and nothing for what is absent.
    pub fn request_fields(&self) -> (fields: UpdateSettingsFields)
        ensures
            fields.log_level is Some <==> self.log_level is Some,
            fields.log_level matches Some(word) ==> word@ == self.log_level->Some_0.name(),
            fields.log_tags is Some <==> self.log_tags is Some,
            fields.log_tags matches Some(words) ==> texts(words@) == log_tag_names(
                self.log_tags->Some_0@,
            ),
    {
        let log_level = match self.log_level {
            Some(level) => Some(String::from_str(level.as_str())),
            None => None,
        };
        let log_tags = match &self.log_tags {
            Some(tags) => {
                let mut words: Vec<String> = Vec::new();
                let mut i: usize = 0;
                assert(texts(words@) =~= log_tag_names(tags@.subrange(0, 0)));
                while i < tags.len()
                    invariant
                        i <= tags.len(),
                        texts(words@) == log_tag_names(tags@.subrange(0, i as int)),
                    decreases tags.len() - i,
                {
                    let word = String::from_str(tags[i].as_str());
                    proof {
                        lemma_texts_push(words@, word);
                        assert(log_tag_names(tags@.subrange(0, i as int)).push(word@)
                            =~= log_tag_names(tags@.subrange(0, i as int + 1)));
                    }
                    words.push(word);
                    i = i + 1;
                }
                assert(tags@.subrange(0, i as int) =~= tags@);
                Some(words)
            },
            None => None,
        };
        UpdateSettingsFields { log_level, log_tags }
    }
}

} // verus!
