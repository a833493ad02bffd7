//! File operations: delete and move, with logging. The destructive calls
//! themselves are the host's (they are filesystem I/O); this module makes
//! every decision around them — which message to report, what to log, how to
//! resolve a destination name conflict — and is verified.

use vstd::prelude::*;

use crate::records::strings_view;
use crate::text_util::{dec_rep, u64_to_string};

verus! {

/// Result of a file operation.
pub enum OperationResult {
    Success(String),
    Error(String),
}

/// Mathematical image of an [`OperationResult`].
pub enum OperationResultV {
    Success(Seq<char>),
    Error(Seq<char>),
}

impl View for OperationResult {
    type V = OperationResultV;

    open spec fn view(&self) -> OperationResultV {
        match self {
            OperationResult::Success(m) => OperationResultV::Success(m@),
            OperationResult::Error(m) => OperationResultV::Error(m@),
        }
    }
}

/// Log entry for one file operation.
pub struct OperationLog {
    pub operation: String,
    pub source: String,
    pub destination: Option<String>,
    pub success: bool,
    pub message: String,
}

/// Mathematical image of an [`OperationLog`].
pub struct OperationLogV {
    pub operation: Seq<char>,
    pub source: Seq<char>,
    pub destination: Option<Seq<char>>,
    pub success: bool,
    pub message: Seq<char>,
}

impl View for OperationLog {
    type V = OperationLogV;

    open spec fn view(&self) -> OperationLogV {
        OperationLogV {
            operation: self.operation@,
            source: self.source@,
            destination: match self.destination {
                Some(d) => Some(d@),
                None => None,
            },
            success: self.success,
            message: self.message@,
        }
    }
}

/// The view of a sequence of log entries.
pub open spec fn logs_view(s: Seq<OperationLog>) -> Seq<OperationLogV> {
    s.map_values(|l: OperationLog| l@)
}

/// The message reported for a successful deletion.
pub open spec fn delete_ok_msg(path: Seq<char>) -> Seq<char> {
    "Deleted: "@ + path
}

/// The message reported for a failed deletion.
pub open spec fn delete_err_msg(path: Seq<char>, err: Seq<char>) -> Seq<char> {
    "Failed to delete "@ + path + ": "@ + err
}

/// The log entry recorded for one deletion attempt.
pub open spec fn delete_log_spec(path: Seq<char>, outcome: Result<(), Seq<char>>) -> OperationLogV {
    OperationLogV {
        operation: "DELETE"@,
        source: path,
        destination: None,
        success: outcome is Ok,
        message: match outcome {
            Ok(_) => delete_ok_msg(path),
            Err(e) => delete_err_msg(path, e),
        },
    }
}

/// The result reported for one deletion attempt.
pub open spec fn delete_result_spec(path: Seq<char>, outcome: Result<(), Seq<char>>)
    -> OperationResultV {
    match outcome {
        Ok(_) => OperationResultV::Success(delete_ok_msg(path)),
        Err(e) => OperationResultV::Error(delete_err_msg(path, e)),
    }
}

/// The view of a deletion outcome.
pub open spec fn delete_outcome_view(o: Result<(), String>) -> Result<(), Seq<char>> {
    match o {
        Ok(_) => Ok(()),
        Err(e) => Err(e@),
    }
}

/// How the host reports one move attempt. The host first ensures the
/// destination directory exists, then picks a conflict-free destination path
/// (see [`generate_unique_path`]), then renames, falling back to copy-then-
/// delete for cross-volume moves; each variant names the step where the
/// attempt ended.
pub enum MoveOutcome {
    /// The destination directory could not be created: its error message.
    DirCreateFailed(String),
    /// The rename succeeded: the destination path.
    Renamed(String),
    /// The rename failed but copy followed by delete succeeded: the
    /// destination path.
    CopiedAndRemoved(String),
    /// The copy succeeded but deleting the source failed (the host removes
    /// the copy again): the destination path and the delete error.
    CopyOkRemoveFailed(String, String),
    /// Both the rename and the copy failed: the destination path and the
    /// rename error.
    CopyFailed(String, String),
}

/// Mathematical image of a [`MoveOutcome`].
pub enum MoveOutcomeV {
    DirCreateFailed(Seq<char>),
    Renamed(Seq<char>),
    CopiedAndRemoved(Seq<char>),
    CopyOkRemoveFailed(Seq<char>, Seq<char>),
    CopyFailed(Seq<char>, Seq<char>),
}

impl View for MoveOutcome {
    type V = MoveOutcomeV;

    open spec fn view(&self) -> MoveOutcomeV {
        match self {
            MoveOutcome::DirCreateFailed(e) => MoveOutcomeV::DirCreateFailed(e@),
            MoveOutcome::Renamed(d) => MoveOutcomeV::Renamed(d@),
            MoveOutcome::CopiedAndRemoved(d) => MoveOutcomeV::CopiedAndRemoved(d@),
            MoveOutcome::CopyOkRemoveFailed(d, e) => MoveOutcomeV::CopyOkRemoveFailed(d@, e@),
            MoveOutcome::CopyFailed(d, e) => MoveOutcomeV::CopyFailed(d@, e@),
        }
    }
}

/// The message reported for a completed move.
pub open spec fn move_ok_msg(source: Seq<char>, dest: Seq<char>) -> Seq<char> {
    "Moved: "@ + source + " -> "@ + dest
}

/// The message reported when the destination directory cannot be created.
pub open spec fn move_dir_err_msg(dest_dir: Seq<char>, err: Seq<char>) -> Seq<char> {
    "Failed to create directory "@ + dest_dir + ": "@ + err
}

/// The message reported when the copy succeeded but the source could not be
/// deleted.
pub open spec fn move_incomplete_msg(source: Seq<char>, err: Seq<char>) -> Seq<char> {
    "Failed to complete move of "@ + source + ": "@ + err
}

/// The message reported when neither rename nor copy worked.
pub open spec fn move_err_msg(source: Seq<char>, err: Seq<char>) -> Seq<char> {
    "Failed to move "@ + source + ": "@ + err
}

/// The result reported for one move attempt.
pub open spec fn move_result_spec(
    source: Seq<char>,
    dest_dir: Seq<char>,
    outcome: MoveOutcomeV,
) -> OperationResultV {
    match outcome {
        MoveOutcomeV::DirCreateFailed(e) => OperationResultV::Error(move_dir_err_msg(dest_dir, e)),
        MoveOutcomeV::Renamed(d) => OperationResultV::Success(move_ok_msg(source, d)),
        MoveOutcomeV::CopiedAndRemoved(d) => OperationResultV::Success(move_ok_msg(source, d)),
        MoveOutcomeV::CopyOkRemoveFailed(_, e) => OperationResultV::Error(
            move_incomplete_msg(source, e),
        ),
        MoveOutcomeV::CopyFailed(_, e) => OperationResultV::Error(move_err_msg(source, e)),
    }
}

/// The log entries appended for one move attempt: one entry, except that a
/// failure to create the destination directory is reported without being
/// logged.
pub open spec fn move_logs_spec(
    source: Seq<char>,
    dest_dir: Seq<char>,
    outcome: MoveOutcomeV,
) -> Seq<OperationLogV> {
    match outcome {
        MoveOutcomeV::DirCreateFailed(_) => Seq::empty(),
        MoveOutcomeV::Renamed(d) => seq![
            OperationLogV {
                operation: "MOVE"@,
                source,
                destination: Some(d),
                success: true,
                message: move_ok_msg(source, d),
            },
        ],
        MoveOutcomeV::CopiedAndRemoved(d) => seq![
            OperationLogV {
                operation: "MOVE"@,
                source,
                destination: Some(d),
                success: true,
                message: move_ok_msg(source, d),
            },
        ],
        MoveOutcomeV::CopyOkRemoveFailed(d, e) => seq![
            OperationLogV {
                operation: "MOVE"@,
                source,
                destination: Some(d),
                success: false,
                message: move_incomplete_msg(source, e),
            },
        ],
        MoveOutcomeV::CopyFailed(d, e) => seq![
            OperationLogV {
                operation: "MOVE"@,
                source,
                destination: Some(d),
                success: false,
                message: move_err_msg(source, e),
            },
        ],
    }
}

/// File operations handler: keeps the log of everything done on its behalf.
pub struct FileOperations {
    logs: Vec<OperationLog>,
}

impl View for FileOperations {
    type V = Seq<OperationLogV>;

    closed spec fn view(&self) -> Seq<OperationLogV> {
        logs_view(self.logs@)
    }
}

impl FileOperations {
    pub fn new() -> (ops: Self)
        ensures
            ops@ == Seq::<OperationLogV>::empty(),
    {
        let ops = FileOperations { logs: Vec::new() };
        proof {
            assert(ops@ =~= Seq::<OperationLogV>::empty());
        }
        ops
    }

    /// Get operation logs.
    pub fn get_logs(&self) -> (logs: &[OperationLog])
        ensures
            logs_view(logs@) == self@,
    {
        self.logs.as_slice()
    }

    /// Clear operation logs.
    pub fn clear_logs(&mut self)
        ensures
            final(self)@ == Seq::<OperationLogV>::empty(),
    {
        self.logs.clear();
        proof {
            assert(self@ =~= Seq::<OperationLogV>::empty());
        }
    }

    /// Records one deletion attempt: the host reports whether the filesystem
    /// delete succeeded (with the error's message if not), and this builds
    /// the reported result and appends the log entry.
    pub fn delete_file(&mut self, path: &str, outcome: Result<(), String>) -> (r: OperationResult)
        ensures
            r@ == delete_result_spec(path@, delete_outcome_view(outcome)),
            final(self)@ == old(self)@.push(delete_log_spec(path@, delete_outcome_view(outcome))),
    {
        let ghost prev = self@;
        match outcome {
            Ok(_) => {
                let mut msg = String::from_str("Deleted: ");
                msg.append(path);
                proof {
                    assert(msg@ =~= delete_ok_msg(path@));
                }
                let log = OperationLog {
                    operation: String::from_str("DELETE"),
                    source: String::from_str(path),
                    destination: None,
                    success: true,
                    message: msg.clone(),
                };
                proof {
                    assert(log@ == delete_log_spec(path@, delete_outcome_view(outcome)));
                }
                self.logs.push(log);
                proof {
                    assert(self@ =~= prev.push(delete_log_spec(path@, delete_outcome_view(outcome))));
                }
                OperationResult::Success(msg)
            },
            Err(e) => {
                let mut msg = String::from_str("Failed to delete ");
                msg.append(path);
                msg.append(": ");
                msg.append(e.as_str());
                proof {
                    assert(msg@ =~= delete_err_msg(path@, e@));
                }
                let log = OperationLog {
                    operation: String::from_str("DELETE"),
                    source: String::from_str(path),
                    destination: None,
                    success: false,
                    message: msg.clone(),
                };
                proof {
                    assert(log@ == delete_log_spec(path@, delete_outcome_view(outcome)));
                }
                self.logs.push(log);
                proof {
                    assert(self@ =~= prev.push(delete_log_spec(path@, delete_outcome_view(outcome))));
                }
                OperationResult::Error(msg)
            },
        }
    }

    /// Records one move attempt: the host performs the directory creation,
    /// conflict resolution, rename and copy fallback, and reports where the
    /// attempt ended; this builds the reported result and appends the log
    /// entry (none for a directory-creation failure, which the host reports
    /// before anything was moved).
    pub fn move_file(&mut self, source: &str, dest_dir: &str, outcome: MoveOutcome) -> (r:
        OperationResult)
        ensures
            r@ == move_result_spec(source@, dest_dir@, outcome@),
            final(self)@ == old(self)@ + move_logs_spec(source@, dest_dir@, outcome@),
    {
        let ghost prev = self@;
        match outcome {
            MoveOutcome::DirCreateFailed(e) => {
                let mut msg = String::from_str("Failed to create directory ");
                msg.append(dest_dir);
                msg.append(": ");
                msg.append(e.as_str());
                proof {
                    assert(msg@ =~= move_dir_err_msg(dest_dir@, e@));
                    assert(self@ =~= prev + move_logs_spec(source@, dest_dir@, outcome@));
                }
                OperationResult::Error(msg)
            },
            MoveOutcome::Renamed(d) => {
                let mut msg = String::from_str("Moved: ");
                msg.append(source);
                msg.append(" -> ");
                msg.append(d.as_str());
                proof {
                    assert(msg@ =~= move_ok_msg(source@, d@));
                }
                let log = OperationLog {
                    operation: String::from_str("MOVE"),
                    source: String::from_str(source),
                    destination: Some(d),
                    success: true,
                    message: msg.clone(),
                };
                self.logs.push(log);
                proof {
                    assert(self@ =~= prev + move_logs_spec(source@, dest_dir@, outcome@));
                }
                OperationResult::Success(msg)
            },
            MoveOutcome::CopiedAndRemoved(d) => {
                let mut msg = String::from_str("Moved: ");
                msg.append(source);
                msg.append(" -> ");
                msg.append(d.as_str());
                proof {
                    assert(msg@ =~= move_ok_msg(source@, d@));
                }
                let log = OperationLog {
                    operation: String::from_str("MOVE"),
                    source: String::from_str(source),
                    destination: Some(d),
                    success: true,
                    message: msg.clone(),
                };
                self.logs.push(log);
                proof {
                    assert(self@ =~= prev + move_logs_spec(source@, dest_dir@, outcome@));
                }
                OperationResult::Success(msg)
            },
            MoveOutcome::CopyOkRemoveFailed(d, e) => {
                let mut msg = String::from_str("Failed to complete move of ");
                msg.append(source);
                msg.append(": ");
                msg.append(e.as_str());
                proof {
                    assert(msg@ =~= move_incomplete_msg(source@, e@));
                }
                let log = OperationLog {
                    operation: String::from_str("MOVE"),
                    source: String::from_str(source),
                    destination: Some(d),
                    success: false,
                    message: msg.clone(),
                };
                self.logs.push(log);
                proof {
                    assert(self@ =~= prev + move_logs_spec(source@, dest_dir@, outcome@));
                }
                OperationResult::Error(msg)
            },
            MoveOutcome::CopyFailed(d, e) => {
                let mut msg = String::from_str("Failed to move ");
                msg.append(source);
                msg.append(": ");
                msg.append(e.as_str());
                proof {
                    assert(msg@ =~= move_err_msg(source@, e@));
                }
                let log = OperationLog {
                    operation: String::from_str("MOVE"),
                    source: String::from_str(source),
                    destination: Some(d),
                    success: false,
                    message: msg.clone(),
                };
                self.logs.push(log);
                proof {
                    assert(self@ =~= prev + move_logs_spec(source@, dest_dir@, outcome@));
                }
                OperationResult::Error(msg)
            },
        }
    }

    /// Records one deletion attempt per path, in order.
    pub fn delete_files(
        &mut self,
        paths: &Vec<String>,
        outcomes: Vec<Result<(), String>>,
    ) -> (results: Vec<OperationResult>)
        requires
            paths@.len() == outcomes@.len(),
        ensures
            results@.map_values(|r: OperationResult| r@) == delete_results_spec(
                strings_view(paths@),
                delete_outcomes_view(outcomes@),
            ),
            final(self)@ == old(self)@ + delete_logs_spec(
                strings_view(paths@),
                delete_outcomes_view(outcomes@),
            ),
    {
        let ghost all_p = strings_view(paths@);
        let ghost all_o = delete_outcomes_view(outcomes@);
        let ghost base = old(self)@;
        let mut orest = outcomes;
        let mut results: Vec<OperationResult> = Vec::new();
        let mut i: usize = 0;
        while i < paths.len()
            invariant
                i + orest@.len() == paths@.len(),
                all_p == strings_view(paths@),
                all_o == delete_outcomes_view(outcomes@),
                all_p.len() == all_o.len(),
                delete_outcomes_view(orest@) =~= all_o.skip(i as int),
                results@.map_values(|r: OperationResult| r@) =~= delete_results_spec(
                    all_p.take(i as int),
                    all_o.take(i as int),
                ),
                self@ =~= base + delete_logs_spec(all_p.take(i as int), all_o.take(i as int)),
            decreases paths@.len() - i,
        {
            let ghost oprev = orest@;
            proof {
                assert(delete_outcomes_view(oprev)[0] == all_o.skip(i as int)[0]);
                assert(all_o.skip(i as int)[0] == all_o[i as int]);
                assert(all_p[i as int] == paths@[i as int]@);
                assert(all_p.take(i + 1 as int).drop_last() =~= all_p.take(i as int));
                assert(all_o.take(i + 1 as int).drop_last() =~= all_o.take(i as int));
                assert(all_p.take(i + 1 as int).last() == all_p[i as int]);
                assert(all_o.take(i + 1 as int).last() == all_o[i as int]);
            }
            let o = orest.remove(0);
            proof {
                assert(delete_outcome_view(o) == all_o[i as int]);
                assert(delete_outcomes_view(orest@) =~= delete_outcomes_view(oprev).skip(1));
                assert(delete_outcomes_view(orest@) =~= all_o.skip(i + 1 as int));
            }
            let r = self.delete_file(paths[i].as_str(), o);
            results.push(r);
            proof {
                assert(results@.map_values(|r: OperationResult| r@) =~= delete_results_spec(
                    all_p.take(i + 1 as int),
                    all_o.take(i + 1 as int),
                ));
                assert(self@ =~= base + delete_logs_spec(
                    all_p.take(i + 1 as int),
                    all_o.take(i + 1 as int),
                ));
            }
            i = i + 1;
        }
        proof {
            assert(all_p.take(all_p.len() as int) =~= all_p);
            assert(all_o.take(all_o.len() as int) =~= all_o);
        }
        results
    }

    /// Records one move attempt per source, in order, all toward one
    /// destination directory.
    pub fn move_files(
        &mut self,
        sources: &Vec<String>,
        dest_dir: &str,
        outcomes: Vec<MoveOutcome>,
    ) -> (results: Vec<OperationResult>)
        requires
            sources@.len() == outcomes@.len(),
        ensures
            results@.map_values(|r: OperationResult| r@) == move_results_spec(
                strings_view(sources@),
                dest_dir@,
                move_outcomes_view(outcomes@),
            ),
            final(self)@ == old(self)@ + move_batch_logs_spec(
                strings_view(sources@),
                dest_dir@,
                move_outcomes_view(outcomes@),
            ),
    {
        let ghost all_p = strings_view(sources@);
        let ghost all_o = move_outcomes_view(outcomes@);
        let ghost base = old(self)@;
        let mut orest = outcomes;
        let mut results: Vec<OperationResult> = Vec::new();
        let mut i: usize = 0;
        while i < sources.len()
            invariant
                i + orest@.len() == sources@.len(),
                all_p == strings_view(sources@),
                all_o == move_outcomes_view(outcomes@),
                all_p.len() == all_o.len(),
                move_outcomes_view(orest@) =~= all_o.skip(i as int),
                results@.map_values(|r: OperationResult| r@) =~= move_results_spec(
                    all_p.take(i as int),
                    dest_dir@,
                    all_o.take(i as int),
                ),
                self@ =~= base + move_batch_logs_spec(
                    all_p.take(i as int),
                    dest_dir@,
                    all_o.take(i as int),
                ),
            decreases sources@.len() - i,
        {
            let ghost oprev = orest@;
            proof {
                assert(move_outcomes_view(oprev)[0] == all_o.skip(i as int)[0]);
                assert(all_o.skip(i as int)[0] == all_o[i as int]);
                assert(all_p[i as int] == sources@[i as int]@);
                assert(all_p.take(i + 1 as int).drop_last() =~= all_p.take(i as int));
                assert(all_o.take(i + 1 as int).drop_last() =~= all_o.take(i as int));
                assert(all_p.take(i + 1 as int).last() == all_p[i as int]);
                assert(all_o.take(i + 1 as int).last() == all_o[i as int]);
            }
            let o = orest.remove(0);
            proof {
                assert(o@ == all_o[i as int]);
                assert(move_outcomes_view(orest@) =~= move_outcomes_view(oprev).skip(1));
                assert(move_outcomes_view(orest@) =~= all_o.skip(i + 1 as int));
            }
            let r = self.move_file(sources[i].as_str(), dest_dir, o);
            results.push(r);
            proof {
                assert(results@.map_values(|r: OperationResult| r@) =~= move_results_spec(
                    all_p.take(i + 1 as int),
                    dest_dir@,
                    all_o.take(i + 1 as int),
                ));
                assert(self@ =~= base + move_batch_logs_spec(
                    all_p.take(i + 1 as int),
                    dest_dir@,
                    all_o.take(i + 1 as int),
                ));
            }
            i = i + 1;
        }
        proof {
            assert(all_p.take(all_p.len() as int) =~= all_p);
            assert(all_o.take(all_o.len() as int) =~= all_o);
        }
        results
    }
}

/// The index of the last occurrence of `c` in `s`, or `-1` when `s` does not
/// contain it.
pub open spec fn last_index_of(s: Seq<char>, c: char) -> int
    decreases s.len(),
{
    if s.len() == 0 {
        -1
    } else if s.last() == c {
        s.len() - 1
    } else {
        last_index_of(s.drop_last(), c)
    }
}

proof fn lemma_last_index_range(s: Seq<char>, c: char)
    ensures
        -1 <= last_index_of(s, c) < s.len(),
    decreases s.len(),
{
    if s.len() > 0 && s.last() != c {
        lemma_last_index_range(s.drop_last(), c);
    }
}

/// Where the final path component starts: just after the last separator, or
/// at the start when there is none.
pub open spec fn split_idx(p: Seq<char>) -> int {
    last_index_of(p, '/') + 1
}

/// Everything up to and including the last separator.
pub open spec fn path_prefix(p: Seq<char>) -> Seq<char> {
    p.take(split_idx(p))
}

/// The final path component.
pub open spec fn path_name(p: Seq<char>) -> Seq<char> {
    p.skip(split_idx(p))
}

/// The final component without its extension; a leading dot does not start
/// an extension.
pub open spec fn path_stem(p: Seq<char>) -> Seq<char> {
    let name = path_name(p);
    let d = last_index_of(name, '.');
    if d > 0 {
        name.take(d)
    } else {
        name
    }
}

/// The extension of the final component, empty when there is none.
pub open spec fn path_ext(p: Seq<char>) -> Seq<char> {
    let name = path_name(p);
    let d = last_index_of(name, '.');
    if d > 0 {
        name.skip(d + 1)
    } else {
        Seq::empty()
    }
}

/// The conflict-resolution candidate for `path` with counter `k`:
/// `prefix/stem_k.ext`, or `prefix/stem_k` for a name without extension.
pub open spec fn candidate_spec(p: Seq<char>, k: int) -> Seq<char> {
    path_prefix(p) + path_stem(p) + "_"@ + dec_rep(k) + if path_ext(p).len() == 0 {
        Seq::<char>::empty()
    } else {
        "."@ + path_ext(p)
    }
}

/// Finds the last occurrence of `c` in `s`.
fn find_last(s: &str, c: char) -> (r: Option<usize>)
    ensures
        match r {
            Some(i) => i < s@.len() && last_index_of(s@, c) == i,
            None => last_index_of(s@, c) == -1,
        },
{
    let n = s.unicode_len();
    let mut i: usize = n;
    proof {
        assert(s@.take(n as int) =~= s@);
    }
    while i > 0
        invariant
            i <= n,
            n == s@.len(),
            last_index_of(s@, c) == last_index_of(s@.take(i as int), c),
        decreases i,
    {
        let ch = s.get_char(i - 1);
        proof {
            assert(s@.take(i as int).last() == s@[i - 1]);
            assert(s@.take(i as int).drop_last() =~= s@.take(i - 1));
        }
        if ch == c {
            return Some(i - 1);
        }
        i = i - 1;
    }
    proof {
        assert(s@.take(0) =~= Seq::<char>::empty());
    }
    None
}

/// Splits a path into its prefix (through the last separator), the stem of
/// its final component, and the extension (empty when there is none).
fn path_parts(path: &str) -> (parts: (String, String, String))
    ensures
        parts.0@ == path_prefix(path@),
        parts.1@ == path_stem(path@),
        parts.2@ == path_ext(path@),
{
    let n = path.unicode_len();
    let split = match find_last(path, '/') {
        Some(i) => i + 1,
        None => 0,
    };
    proof {
        assert(split == split_idx(path@));
        lemma_last_index_range(path@, '/');
    }
    let prefix = path.substring_char(0, split).to_owned();
    let name = path.substring_char(split, n);
    proof {
        assert(prefix@ =~= path_prefix(path@));
        assert(name@ =~= path_name(path@));
    }
    let name_len = name.unicode_len();
    match find_last(name, '.') {
        Some(d) => {
            if d > 0 {
                let stem = name.substring_char(0, d).to_owned();
                let ext = name.substring_char(d + 1, name_len).to_owned();
                proof {
                    assert(stem@ =~= path_stem(path@));
                    assert(ext@ =~= path_ext(path@));
                }
                (prefix, stem, ext)
            } else {
                proof {
                    assert(name@ =~= path_stem(path@));
                    assert(Seq::<char>::empty() =~= path_ext(path@));
                }
                (prefix, name.to_owned(), String::new())
            }
        },
        None => {
            proof {
                assert(name@ =~= path_stem(path@));
                assert(Seq::<char>::empty() =~= path_ext(path@));
            }
            (prefix, name.to_owned(), String::new())
        },
    }
}

/// The conflict-resolution candidate for `path` with the given counter.
pub fn unique_path_candidate(path: &str, counter: u64) -> (c: String)
    ensures
        c@ == candidate_spec(path@, counter as int),
{
    let parts = path_parts(path);
    let mut out = parts.0;
    out.append(parts.1.as_str());
    out.append("_");
    out.append(u64_to_string(counter).as_str());
    if !parts.2.as_str().is_empty() {
        out.append(".");
        out.append(parts.2.as_str());
    }
    proof {
        assert(out@ =~= candidate_spec(path@, counter as int));
    }
    out
}

/// Whether the list holds this exact string.
fn vec_contains_string(v: &Vec<String>, s: &String) -> (r: bool)
    ensures
        r == strings_view(v@).contains(s@),
{
    let mut i: usize = 0;
    while i < v.len()
        invariant
            i <= v@.len(),
            forall|t: int| 0 <= t < i ==> (#[trigger] strings_view(v@)[t]) != s@,
        decreases v@.len() - i,
    {
        if v[i] == *s {
            proof {
                assert(strings_view(v@)[i as int] == s@);
            }
            return true;
        }
        proof {
            assert(strings_view(v@)[i as int] == v@[i as int]@);
        }
        i = i + 1;
    }
    proof {
        assert(!strings_view(v@).contains(s@));
    }
    false
}

/// Relies on `uuid::Uuid::new_v4` and its display form: a fresh random UUID
/// rendered in the standard hyphenated form, 36 characters long. Nothing
/// else is assumed of the value — it is random.
#[verifier::external_body]
fn uuid_simple() -> (s: String)
    ensures
        s@.len() == 36,
{
    uuid::Uuid::new_v4().to_string()
}

/// Picks a destination name that is not taken: the first `stem_k(.ext)`
/// (counting `k` up from one) absent from `occupied` — the names the host
/// found present on disk. After ten thousand collisions it falls back to a
/// random UUID suffix instead.
pub fn generate_unique_path(path: &str, occupied: &Vec<String>) -> (r: String)
    ensures
        ({
            ||| exists|k: int|
                1 <= k <= 10000 && !strings_view(occupied@).contains(
                    #[trigger] candidate_spec(path@, k),
                ) && (forall|t: int|
                    1 <= t < k ==> strings_view(occupied@).contains(
                        #[trigger] candidate_spec(path@, t),
                    )) && r@ == candidate_spec(path@, k)
            ||| forall|t: int|
                1 <= t <= 10000 ==> strings_view(occupied@).contains(
                    #[trigger] candidate_spec(path@, t),
                )
        }),
{
    let mut counter: u64 = 1;
    while counter <= 10000
        invariant
            1 <= counter <= 10001,
            forall|t: int|
                1 <= t < counter ==> strings_view(occupied@).contains(
                    #[trigger] candidate_spec(path@, t),
                ),
        decreases 10001 - counter,
    {
        let cand = unique_path_candidate(path, counter);
        if !vec_contains_string(occupied, &cand) {
            return cand;
        }
        counter = counter + 1;
    }
    let parts = path_parts(path);
    let mut out = parts.0;
    out.append(parts.1.as_str());
    out.append("_");
    out.append(uuid_simple().as_str());
    out
}

/// The views of a list of deletion outcomes.
pub open spec fn delete_outcomes_view(s: Seq<Result<(), String>>) -> Seq<Result<(), Seq<char>>> {
    s.map_values(|o: Result<(), String>| delete_outcome_view(o))
}

/// The views of a list of move outcomes.
pub open spec fn move_outcomes_view(s: Seq<MoveOutcome>) -> Seq<MoveOutcomeV> {
    s.map_values(|o: MoveOutcome| o@)
}

/// The results of a batch of deletions, in order.
pub open spec fn delete_results_spec(
    paths: Seq<Seq<char>>,
    os: Seq<Result<(), Seq<char>>>,
) -> Seq<OperationResultV>
    decreases paths.len(),
{
    if paths.len() == 0 || os.len() == 0 {
        Seq::empty()
    } else {
        delete_results_spec(paths.drop_last(), os.drop_last()).push(
            delete_result_spec(paths.last(), os.last()),
        )
    }
}

/// The log entries of a batch of deletions, in order.
pub open spec fn delete_logs_spec(
    paths: Seq<Seq<char>>,
    os: Seq<Result<(), Seq<char>>>,
) -> Seq<OperationLogV>
    decreases paths.len(),
{
    if paths.len() == 0 || os.len() == 0 {
        Seq::empty()
    } else {
        delete_logs_spec(paths.drop_last(), os.drop_last()).push(
            delete_log_spec(paths.last(), os.last()),
        )
    }
}

/// The results of a batch of moves, in order.
pub open spec fn move_results_spec(
    sources: Seq<Seq<char>>,
    dest_dir: Seq<char>,
    os: Seq<MoveOutcomeV>,
) -> Seq<OperationResultV>
    decreases sources.len(),
{
    if sources.len() == 0 || os.len() == 0 {
        Seq::empty()
    } else {
        move_results_spec(sources.drop_last(), dest_dir, os.drop_last()).push(
            move_result_spec(sources.last(), dest_dir, os.last()),
        )
    }
}

/// The log entries of a batch of moves, in order.
pub open spec fn move_batch_logs_spec(
    sources: Seq<Seq<char>>,
    dest_dir: Seq<char>,
    os: Seq<MoveOutcomeV>,
) -> Seq<OperationLogV>
    decreases sources.len(),
{
    if sources.len() == 0 || os.len() == 0 {
        Seq::empty()
    } else {
        move_batch_logs_spec(sources.drop_last(), dest_dir, os.drop_last())
            + move_logs_spec(sources.last(), dest_dir, os.last())
    }
}

} // verus!
