use vstd::prelude::*;
use crate::ansi::{strip_of, strip_line, bold_white, red_line};
use crate::join_path;
use crate::join_path_exec;
use crate::text::{kept_lines, kept_lines_of, plain_seq, trim_end, trim_end_line};

verus! {

/// `Logger` writes lines to a console and optionally to a log file: the
/// console copy keeps any color styling, the file copy has ANSI escape
/// sequences stripped. It holds no handles: each write produces the lines for
/// both sinks as values, and the caller that owns the console and the file
/// performs the writes.
///
/// Note: `Logger` is a plain value; to log to a separate file from a derived
/// context, clone it and bind the clone's own file path.
#[derive(Debug, Clone)]
pub struct Logger {
    prefix: Option<String>,
    log_dir: Option<String>,
    log_file: Option<String>,
    pub quiet: bool,
}

/// The abstract state of a `Logger`.
pub struct LoggerView {
    pub prefix: Option<Seq<char>>,
    pub log_dir: Option<Seq<char>>,
    pub log_file: Option<Seq<char>>,
    pub quiet: bool,
}

impl View for Logger {
    type V = LoggerView;

    closed spec fn view(&self) -> LoggerView {
        LoggerView {
            prefix: match self.prefix {
                Some(p) => Some(p@),
                None => None,
            },
            log_dir: match self.log_dir {
                Some(d) => Some(d@),
                None => None,
            },
            log_file: match self.log_file {
                Some(f) => Some(f@),
                None => None,
            },
            quiet: self.quiet,
        }
    }
}

/// How rescoping to a test changes the logger's state: the prefix becomes the
/// test's name; when a log directory is set and its test subdirectory is
/// ready, the log directory descends into that subdirectory, and otherwise it
/// is left untouched.
pub open spec fn scoped_view(v: LoggerView, test_name: Seq<char>, dir_ready: bool) -> LoggerView {
    LoggerView {
        prefix: Some(test_name),
        log_dir: if v.log_dir is Some && dir_ready {
            Some(join_path(v.log_dir->Some_0, test_name))
        } else {
            v.log_dir
        },
        log_file: v.log_file,
        quiet: v.quiet,
    }
}

/// How binding a log file changes the logger's state: when a log directory is
/// set and the named file within it is ready, that path becomes the file sink,
/// and otherwise the state is left untouched.
pub open spec fn bound_view(v: LoggerView, file_name: Seq<char>, file_ready: bool) -> LoggerView {
    LoggerView {
        prefix: v.prefix,
        log_dir: v.log_dir,
        log_file: if v.log_dir is Some && file_ready {
            Some(join_path(v.log_dir->Some_0, file_name))
        } else {
            v.log_file
        },
        quiet: v.quiet,
    }
}

/// The lines a write of `text` appends to the file sink: the kept lines of
/// `text`, each with its ANSI escapes stripped; none when no file is bound.
pub open spec fn file_lines_view(v: LoggerView, text: Seq<char>) -> Seq<Seq<char>> {
    if v.log_file is Some {
        kept_lines(text).map_values(|l: Seq<char>| strip_of(l))
    } else {
        Seq::<Seq<char>>::empty()
    }
}

/// The line bodies a write of `text` prints to the console: the kept lines of
/// `text` with trailing whitespace trimmed, styling preserved; none when the
/// logger is quiet.
pub open spec fn console_bodies_view(v: LoggerView, text: Seq<char>) -> Seq<Seq<char>> {
    if v.quiet {
        Seq::<Seq<char>>::empty()
    } else {
        kept_lines(text).map_values(|l: Seq<char>| trim_end(l))
    }
}

/// One console line: an optional styled prefix (printed as `prefix: ` before
/// the body) and the body itself.
pub struct ConsoleLine {
    pub styled_prefix: Option<String>,
    pub body: String,
}

/// What one write produces: the lines for the file sink and the lines for the
/// console.
pub struct LogOutput {
    pub file_lines: Vec<String>,
    pub console_lines: Vec<ConsoleLine>,
}

impl LogOutput {
    /// The file lines as sequences.
    pub open spec fn file_views(&self) -> Seq<Seq<char>> {
        self.file_lines@.map_values(|s: String| s@)
    }

    /// The console line bodies as sequences.
    pub open spec fn console_body_views(&self) -> Seq<Seq<char>> {
        self.console_lines@.map_values(|c: ConsoleLine| c.body@)
    }
}

/// The styled prefixes of console lines match the logger's prefix: absent
/// together, and the styled copy strips back to the plain prefix.
pub open spec fn console_prefixes_ok(v: LoggerView, out: LogOutput) -> bool {
    forall|i: int|
        0 <= i < out.console_lines@.len() ==> {
            match (v.prefix, #[trigger] out.console_lines@[i].styled_prefix) {
                (None, sp) => sp is None,
                (Some(p), sp) => sp is Some && (plain_seq(p) ==> strip_of(sp->Some_0@) == p),
            }
        }
}

impl Logger {
    /// A `Logger` that only prints to the console.
    pub fn default() -> (r: Logger)
        ensures
            r@ == (LoggerView { prefix: None, log_dir: None, log_file: None, quiet: false }),
    {
        Logger { prefix: None, log_dir: None, log_file: None, quiet: false }
    }

    /// A console-only `Logger` whose lines carry the given `prefix`.
    pub fn with_prefix(prefix: &str) -> (r: Logger)
        ensures
            r@ == (LoggerView {
                prefix: Some(prefix@),
                log_dir: None,
                log_file: None,
                quiet: false,
            }),
    {
        Logger { prefix: Some(prefix.to_owned()), log_dir: None, log_file: None, quiet: false }
    }

    /// A `Logger` rooted at the given log directory.
    pub fn in_dir(log_dir: &str) -> (r: Logger)
        ensures
            r@ == (LoggerView {
                prefix: None,
                log_dir: Some(log_dir@),
                log_file: None,
                quiet: false,
            }),
    {
        Logger { prefix: None, log_dir: Some(log_dir.to_owned()), log_file: None, quiet: false }
    }

    /// The subdirectory that rescoping to `test_name` would descend into, when
    /// a log directory is set: the caller creates it before calling
    /// `set_test`.
    pub fn test_log_dir(&self, test_name: &str) -> (r: Option<String>)
        ensures
            match self@.log_dir {
                Some(d) => r is Some && r->Some_0@ == join_path(d, test_name@),
                None => r is None,
            },
    {
        match &self.log_dir {
            Some(d) => Some(join_path_exec(d.as_str(), test_name)),
            None => None,
        }
    }

    /// The path that binding `file_name` would record as the file sink, when a
    /// log directory is set: the caller creates the file before calling
    /// `set_log_file`.
    pub fn log_file_target(&self, file_name: &str) -> (r: Option<String>)
        ensures
            match self@.log_dir {
                Some(d) => r is Some && r->Some_0@ == join_path(d, file_name@),
                None => r is None,
            },
    {
        match &self.log_dir {
            Some(d) => Some(join_path_exec(d.as_str(), file_name)),
            None => None,
        }
    }

    /// Rescopes this `Logger` to a test: the prefix becomes `test_name`, and
    /// when a log directory is set and `dir_ready` says its test subdirectory
    /// exists, the log directory descends into it. With no log directory set,
    /// or with `dir_ready` false, the directory state is left untouched: a
    /// failed rescoping degrades silently.
    pub fn set_test(&mut self, test_name: &str, dir_ready: bool)
        ensures
            final(self)@ == scoped_view(old(self)@, test_name@, dir_ready),
    {
        if dir_ready {
            let sub = match &self.log_dir {
                Some(d) => Some(join_path_exec(d.as_str(), test_name)),
                None => None,
            };
            if sub.is_some() {
                self.log_dir = sub;
            }
        }
        self.prefix = Some(test_name.to_owned());
    }

    /// Binds the file that future writes append to: when a log directory is
    /// set and `file_ready` says the named file within it exists, that path
    /// becomes the file sink. With no log directory set, or with `file_ready`
    /// false, the binding is abandoned silently and the state is unchanged.
    pub fn set_log_file(&mut self, file_name: &str, file_ready: bool)
        ensures
            final(self)@ == bound_view(old(self)@, file_name@, file_ready),
    {
        if file_ready {
            let target = match &self.log_dir {
                Some(d) => Some(join_path_exec(d.as_str(), file_name)),
                None => None,
            };
            if target.is_some() {
                self.log_file = target;
            }
        }
    }

    /// The bound file sink path, if any.
    pub fn log_file_path(&self) -> (r: Option<&String>)
        ensures
            match self@.log_file {
                Some(f) => r is Some && r->Some_0@ == f,
                None => r is None,
            },
    {
        self.log_file.as_ref()
    }

    /// Produces the lines that writing `text` sends to each sink: every
    /// non-blank line of `text` goes, stripped of ANSI escapes, to the file
    /// sink when one is bound, and, trimmed of trailing whitespace and with
    /// the styled prefix, to the console unless the logger is quiet.
    pub fn log(&self, text: &str) -> (out: LogOutput)
        ensures
            out.file_views() == file_lines_view(self@, text@),
            out.console_body_views() == console_bodies_view(self@, text@),
            console_prefixes_ok(self@, out),
    {
        let kept = kept_lines_of(text);
        let ghost kviews = kept@.map_values(|p: String| p@);
        let mut file_lines: Vec<String> = Vec::new();
        let mut console_lines: Vec<ConsoleLine> = Vec::new();
        proof {
            assert(file_lines@.map_values(|s: String| s@) =~~= kviews.subrange(0, 0).map_values(
                |l: Seq<char>| strip_of(l),
            ));
            assert(file_lines@.map_values(|s: String| s@) =~~= Seq::<Seq<char>>::empty());
            assert(console_lines@.map_values(|c: ConsoleLine| c.body@) =~~= kviews.subrange(
                0,
                0,
            ).map_values(|l: Seq<char>| trim_end(l)));
            assert(console_lines@.map_values(|c: ConsoleLine| c.body@) =~~= Seq::<
                Seq<char>,
            >::empty());
        }
        let mut i: usize = 0;
        while i < kept.len()
            invariant
                0 <= i <= kept.len(),
                kviews == kept@.map_values(|p: String| p@),
                kviews == kept_lines(text@),
                file_lines@.map_values(|s: String| s@) == if self@.log_file is Some {
                    kviews.subrange(0, i as int).map_values(|l: Seq<char>| strip_of(l))
                } else {
                    Seq::<Seq<char>>::empty()
                },
                console_lines@.map_values(|c: ConsoleLine| c.body@) == if self@.quiet {
                    Seq::<Seq<char>>::empty()
                } else {
                    kviews.subrange(0, i as int).map_values(|l: Seq<char>| trim_end(l))
                },
                console_prefixes_ok(self@, LogOutput { file_lines, console_lines }),
            decreases kept.len() - i,
        {
            let line = &kept[i];
            proof {
                assert(line@ == kviews[i as int]);
            }
            if self.log_file.is_some() {
                let ghost fl_old = file_lines@;
                let stripped = strip_line(line.as_str());
                file_lines.push(stripped);
                proof {
                    let lhs = file_lines@.map_values(|s: String| s@);
                    let rhs = kviews.subrange(0, i + 1).map_values(|l: Seq<char>| strip_of(l));
                    assert(self@.log_file is Some);
                    assert(fl_old.map_values(|s: String| s@) == kviews.subrange(0, i as int).map_values(|l: Seq<char>| strip_of(l)));
                    assert(fl_old.map_values(|s: String| s@).len() == fl_old.len());
                    assert(kviews.subrange(0, i as int).len() == i as int);
                    assert(fl_old.len() == i as int);
                    assert(file_lines@ == fl_old.push(stripped));
                    assert(lhs.len() == rhs.len());
                    assert forall|j: int| 0 <= j < lhs.len() implies lhs[j] == rhs[j] by {
                        if j < i as int {
                            assert(lhs[j] == fl_old.map_values(|s: String| s@)[j]);
                            assert(rhs[j] == strip_of(kviews[j]));
                        } else {
                            assert(lhs[j] == stripped@);
                            assert(rhs[j] == strip_of(kviews[i as int]));
                        }
                    }
                    assert(lhs =~= rhs);
                }
            }
            if !self.quiet {
                let ghost cl_old = console_lines@;
                let styled_prefix = match &self.prefix {
                    Some(p) => Some(bold_white(p.as_str())),
                    None => None,
                };
                let body = trim_end_line(line.as_str());
                console_lines.push(ConsoleLine { styled_prefix, body });
                proof {
                    let lhs = console_lines@.map_values(|c: ConsoleLine| c.body@);
                    let rhs = kviews.subrange(0, i + 1).map_values(|l: Seq<char>| trim_end(l));
                    assert(cl_old.map_values(|c: ConsoleLine| c.body@) == kviews.subrange(
                        0,
                        i as int,
                    ).map_values(|l: Seq<char>| trim_end(l)));
                    assert(cl_old.map_values(|c: ConsoleLine| c.body@).len() == cl_old.len());
                    assert(cl_old.len() == i as int);
                    assert(lhs.len() == rhs.len());
                    assert forall|j: int| 0 <= j < lhs.len() implies lhs[j] == rhs[j] by {
                        if j < i as int {
                            assert(lhs[j] == cl_old.map_values(|c: ConsoleLine| c.body@)[j]);
                            assert(rhs[j] == trim_end(kviews[j]));
                        } else {
                            assert(lhs[j] == console_lines@[j].body@);
                            assert(rhs[j] == trim_end(kviews[i as int]));
                        }
                    }
                    assert(lhs =~= rhs);
                }
            }
            proof {
                if self@.log_file is None {
                    assert(file_lines@.map_values(|s: String| s@) =~= Seq::<Seq<char>>::empty());
                }
                if self@.quiet {
                    assert(console_lines@.map_values(|c: ConsoleLine| c.body@) =~= Seq::<
                        Seq<char>,
                    >::empty());
                }
            }
            i = i + 1;
        }
        proof {
            assert(kviews.subrange(0, kviews.len() as int) =~= kviews);
        }
        LogOutput { file_lines, console_lines }
    }

    /// As `log`, but each kept line is rendered in the error color (red) on
    /// the console; the file copy is still stripped of styling, so for plain
    /// text the file sink receives the kept lines themselves.
    pub fn error(&self, text: &str) -> (out: LogOutput)
        ensures
            out.file_lines@.len() == file_lines_view(self@, text@).len(),
            out.console_lines@.len() == console_bodies_view(self@, text@).len(),
            (forall|j: int|
                0 <= j < kept_lines(text@).len() ==> plain_seq(
                    #[trigger] kept_lines(text@)[j],
                )) ==> out.file_views() == if self@.log_file is Some {
                kept_lines(text@)
            } else {
                Seq::<Seq<char>>::empty()
            },
            console_prefixes_ok(self@, out),
    {
        let kept = kept_lines_of(text);
        let ghost kviews = kept@.map_values(|p: String| p@);
        let ghost all_plain = forall|j: int|
            0 <= j < kept_lines(text@).len() ==> plain_seq(#[trigger] kept_lines(text@)[j]);
        let mut file_lines: Vec<String> = Vec::new();
        let mut console_lines: Vec<ConsoleLine> = Vec::new();
        let mut i: usize = 0;
        while i < kept.len()
            invariant
                0 <= i <= kept.len(),
                kviews == kept@.map_values(|p: String| p@),
                kviews == kept_lines(text@),
                all_plain == (forall|j: int|
                    0 <= j < kept_lines(text@).len() ==> plain_seq(
                        #[trigger] kept_lines(text@)[j],
                    )),
                file_lines@.len() == if self@.log_file is Some {
                    i as int
                } else {
                    0
                },
                console_lines@.len() == if self@.quiet {
                    0
                } else {
                    i as int
                },
                all_plain && self@.log_file is Some ==> file_lines@.map_values(|s: String| s@)
                    =~= kviews.subrange(0, i as int),
                console_prefixes_ok(self@, LogOutput { file_lines, console_lines }),
            decreases kept.len() - i,
        {
            let line = &kept[i];
            proof {
                assert(line@ == kviews[i as int]);
            }
            let styled = red_line(line.as_str());
            if self.log_file.is_some() {
                let ghost fl_old = file_lines@;
                let stripped = strip_line(styled.as_str());
                file_lines.push(stripped);
                proof {
                    if all_plain {
                        assert(plain_seq(kviews[i as int]));
                        assert(stripped@ == kviews[i as int]);
                        let lhs = file_lines@.map_values(|s: String| s@);
                        let rhs = kviews.subrange(0, i + 1);
                        assert(fl_old.len() == i as int);
                        assert(lhs.len() == rhs.len());
                        assert forall|j: int| 0 <= j < lhs.len() implies lhs[j] == rhs[j] by {
                            if j < i as int {
                                assert(lhs[j] == fl_old.map_values(|s: String| s@)[j]);
                            } else {
                                assert(lhs[j] == stripped@);
                            }
                        }
                        assert(lhs =~= rhs);
                    }
                }
            }
            if !self.quiet {
                let styled_prefix = match &self.prefix {
                    Some(p) => Some(bold_white(p.as_str())),
                    None => None,
                };
                let body = trim_end_line(styled.as_str());
                console_lines.push(ConsoleLine { styled_prefix, body });
            }
            i = i + 1;
        }
        proof {
            if all_plain && self@.log_file is Some {
                assert(kviews.subrange(0, kviews.len() as int) =~= kviews);
            }
            assert(file_lines_view(self@, text@).len() == if self@.log_file is Some {
                kept_lines(text@).len()
            } else {
                0nat
            });
            assert(console_bodies_view(self@, text@).len() == if self@.quiet {
                0nat
            } else {
                kept_lines(text@).len()
            });
        }
        LogOutput { file_lines, console_lines }
    }
}


/// The transcript is the console with the styling stripped: for a logger with
/// a file bound and not quiet, writing text whose kept lines carry no trailing
/// whitespace appends to the file, byte for byte, the console line bodies with
/// their ANSI escape sequences removed.
pub proof fn lemma_transcript_matches_console(v: LoggerView, text: Seq<char>)
    requires
        v.log_file is Some,
        !v.quiet,
        forall|i: int|
            0 <= i < kept_lines(text).len() ==> trim_end(#[trigger] kept_lines(text)[i])
                == kept_lines(text)[i],
    ensures
        file_lines_view(v, text) == console_bodies_view(v, text).map_values(
            |l: Seq<char>| strip_of(l),
        ),
{
    let kept = kept_lines(text);
    let lhs = file_lines_view(v, text);
    let rhs = console_bodies_view(v, text).map_values(|l: Seq<char>| strip_of(l));
    assert(lhs.len() == rhs.len());
    assert forall|i: int| 0 <= i < lhs.len() implies lhs[i] == rhs[i] by {
        assert(lhs[i] == strip_of(kept[i]));
        assert(console_bodies_view(v, text)[i] == trim_end(kept[i]));
        assert(trim_end(kept[i]) == kept[i]);
        assert(rhs[i] == strip_of(kept[i]));
    }
    assert(lhs =~~= rhs);
}

/// Rescoping to a test and then binding a file on a logger that has no log
/// directory are silent no-ops for the sinks: the file sink and the directory
/// stay unset and nothing fails; only the prefix changes.
pub proof fn lemma_unscoped_bind_noop(
    v: LoggerView,
    test_name: Seq<char>,
    dir_ready: bool,
    file_name: Seq<char>,
    file_ready: bool,
)
    requires
        v.log_dir is None,
    ensures
        ({
            let after = bound_view(scoped_view(v, test_name, dir_ready), file_name, file_ready);
            &&& after.log_dir is None
            &&& after.log_file == v.log_file
            &&& after.prefix == Some(test_name)
            &&& after.quiet == v.quiet
        }),
{
}

} // verus!
