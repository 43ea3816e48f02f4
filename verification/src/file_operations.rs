//! Relocation of a file into the knowledge base's `pages` directory.
//!
//! Two pieces of decision logic live here, both free of filesystem calls so
//! that every step is verified. The [`DestinationResolver`] chooses
//! collision-free destination names: the plain file name first, then the stem
//! with a hexadecimal token, then numbered variants, and no name is ever
//! proposed twice. The move protocol ([`MovePhase`], [`move_step`]) prefers a
//! single rename and falls back to copy, size verification and only then
//! removal of the source, so the source is never deleted before a verified
//! copy exists. The application performs each commanded filesystem action and
//! reports the outcome back as the next event.

use std::hash::{Hash, Hasher};

use vstd::prelude::*;

use crate::config::{Config, ConfigError};
use crate::paths::{ext_spec, stem_spec};
use crate::text::{dec_digits, hex_digits, lemma_dec_digits_injective, lemma_dec_digits_len};

verus! {

/// Errors of file relocation.
#[derive(Debug)]
pub enum FileOperationError {
    IoError(String),
    ConfigError(ConfigError),
    FileNotFound(String),
    DirectoryCreationFailed(String),
    IntegrityCheckFailed(String),
    MoveOperationFailed(String),
}

/// Public interface for file operations.
pub struct FileOperations;

impl FileOperations {
    /// The `pages` directory under the configured knowledge-base root.
    pub fn get_pages_directory(config: &Config) -> (r: Result<String, FileOperationError>)
        ensures
            r is Ok,
            exists|root: Seq<char>|
                r->Ok_0@ == root + "/pages"@ && (root == config.knowledge_base_path@
                    || exists|home: Seq<char>| root == crate::config::expand_with_spec(
                    config.knowledge_base_path@,
                    home,
                )),
    {
        let kb = config.get_knowledge_base_path();
        let mut p = kb;
        let ghost root = p@;
        p.append("/pages");
        proof {
            assert(p@ == root + "/pages"@);
        }
        Ok(p)
    }
}

/// Relies on std::time::SystemTime::now and DefaultHasher: a token derived
/// from hashing the current clock reading. Nothing is promised of its value.
#[verifier::external_body]
fn timestamp_token() -> u64 {
    let mut hasher = std::collections::hash_map::DefaultHasher::new();
    std::time::SystemTime::now()
        .duration_since(std::time::SystemTime::UNIX_EPOCH)
        .unwrap_or_default()
        .as_nanos()
        .hash(&mut hasher);
    hasher.finish()
}

/// The candidate destination name for disambiguation round `n`: the stem with
/// the hexadecimal token appended, and from round one on a decimal counter.
pub open spec fn candidate_name_spec(
    stem: Seq<char>,
    ext: Seq<char>,
    hex: Seq<char>,
    n: nat,
) -> Seq<char> {
    if n == 0 {
        stem + seq!['_'] + hex + ext
    } else {
        stem + seq!['_'] + hex + seq!['_'] + dec_digits(n) + ext
    }
}

/// The `k`-th name a resolution probes: the unchanged file name first, then
/// the disambiguation candidates.
pub open spec fn probe_name_spec(
    stem: Seq<char>,
    ext: Seq<char>,
    hex: Seq<char>,
    k: nat,
) -> Seq<char> {
    if k == 0 {
        stem + ext
    } else {
        candidate_name_spec(stem, ext, hex, (k - 1) as nat)
    }
}

proof fn lemma_probe_name_len(stem: Seq<char>, ext: Seq<char>, hex: Seq<char>, k: nat)
    ensures
        k == 0 ==> probe_name_spec(stem, ext, hex, k).len() == stem.len() + ext.len(),
        k == 1 ==> probe_name_spec(stem, ext, hex, k).len() == stem.len() + 1 + hex.len()
            + ext.len(),
        k >= 2 ==> probe_name_spec(stem, ext, hex, k).len() == stem.len() + 2 + hex.len()
            + dec_digits((k - 1) as nat).len() + ext.len(),
{
    if k >= 2 {
        lemma_dec_digits_len((k - 1) as nat);
    }
}

proof fn lemma_mid_cancel(x: Seq<char>, s1: Seq<char>, s2: Seq<char>, y: Seq<char>)
    requires
        s1.len() == s2.len(),
        x + s1 + y == x + s2 + y,
    ensures
        s1 == s2,
{
    assert forall|t: int| 0 <= t < s1.len() implies s1[t] == s2[t] by {
        assert((x + s1 + y)[x.len() + t] == s1[t]);
        assert((x + s2 + y)[x.len() + t] == s2[t]);
    }
    assert(s1 =~= s2);
}

/// No two distinct probes of one resolution propose the same name: the
/// numbered candidates differ from the plain name, from the token candidate
/// and from each other.
pub proof fn lemma_probe_names_distinct(
    stem: Seq<char>,
    ext: Seq<char>,
    hex: Seq<char>,
    i: nat,
    j: nat,
)
    requires
        hex.len() >= 1,
        i != j,
    ensures
        probe_name_spec(stem, ext, hex, i) != probe_name_spec(stem, ext, hex, j),
{
    let a = probe_name_spec(stem, ext, hex, i);
    let b = probe_name_spec(stem, ext, hex, j);
    lemma_probe_name_len(stem, ext, hex, i);
    lemma_probe_name_len(stem, ext, hex, j);
    if i >= 2 {
        lemma_dec_digits_len((i - 1) as nat);
    }
    if j >= 2 {
        lemma_dec_digits_len((j - 1) as nat);
    }
    if a.len() == b.len() {
        assert(i >= 2 && j >= 2);
        let di = dec_digits((i - 1) as nat);
        let dj = dec_digits((j - 1) as nat);
        assert(di.len() == dj.len());
        if a == b {
            let x = stem + seq!['_'] + hex + seq!['_'];
            assert(a =~= x + di + ext);
            assert(b =~= x + dj + ext);
            lemma_mid_cancel(x, di, dj, ext);
            lemma_dec_digits_injective((i - 1) as nat, (j - 1) as nat);
            assert(false);
        }
    }
}

/// Chooses collision-free destination names for one relocation: the caller
/// probes the current name against the destination directory and reports a
/// collision with [`DestinationResolver::mark_taken`], which moves on to the
/// next candidate until the disambiguation rounds are exhausted.
pub struct DestinationResolver {
    stem: String,
    ext: String,
    hex: String,
    probe: u64,
}

impl DestinationResolver {
    /// The stem the resolver disambiguates.
    pub closed spec fn stem_view(&self) -> Seq<char> {
        self.stem@
    }

    /// The extension every candidate keeps.
    pub closed spec fn ext_view(&self) -> Seq<char> {
        self.ext@
    }

    /// The hexadecimal token of this resolution.
    pub closed spec fn hex_view(&self) -> Seq<char> {
        self.hex@
    }

    /// How many names have been probed and found taken.
    pub closed spec fn probe_count(&self) -> nat {
        self.probe as nat
    }

    /// The token is non-empty, which keeps all probed names distinct.
    pub closed spec fn wf(&self) -> bool {
        self.hex@.len() >= 1
    }

    /// Starts a resolution for a file name with a given disambiguation
    /// token.
    pub fn with_token(filename: &str, token: u64) -> (r: Self)
        ensures
            r.wf(),
            r.probe_count() == 0,
            r.stem_view() == stem_spec(filename@),
            r.ext_view() == ext_spec(filename@),
            r.hex_view() == hex_digits(token as nat),
            r.stem_view() + r.ext_view() == filename@,
    {
        let (stem, ext) = crate::paths::split_name(filename);
        let hex = crate::text::u64_to_hex(token);
        DestinationResolver { stem, ext, hex, probe: 0 }
    }

    /// Starts a resolution for a file name, with a token hashed from the
    /// clock.
    pub fn begin(filename: &str) -> (r: Self)
        ensures
            r.wf(),
            r.probe_count() == 0,
            r.stem_view() == stem_spec(filename@),
            r.ext_view() == ext_spec(filename@),
            r.stem_view() + r.ext_view() == filename@,
    {
        Self::with_token(filename, timestamp_token())
    }

    /// The name to probe next.
    pub fn current_name(&self) -> (r: String)
        ensures
            r@ == probe_name_spec(
                self.stem_view(),
                self.ext_view(),
                self.hex_view(),
                self.probe_count(),
            ),
    {
        if self.probe == 0 {
            let mut r = self.stem.clone();
            r.append(self.ext.as_str());
            r
        } else if self.probe == 1 {
            let mut r = self.stem.clone();
            r.append("_");
            r.append(self.hex.as_str());
            r.append(self.ext.as_str());
            proof {
                reveal_strlit("_");
                assert(r@ =~= candidate_name_spec(self.stem@, self.ext@, self.hex@, 0));
            }
            r
        } else {
            let n = crate::text::u64_to_dec(self.probe - 1);
            let mut r = self.stem.clone();
            r.append("_");
            r.append(self.hex.as_str());
            r.append("_");
            r.append(n.as_str());
            r.append(self.ext.as_str());
            proof {
                reveal_strlit("_");
                assert(r@ =~= candidate_name_spec(
                    self.stem@,
                    self.ext@,
                    self.hex@,
                    (self.probe - 1) as nat,
                ));
            }
            r
        }
    }

    /// The full path to probe next, inside the given directory.
    pub fn current_path(&self, dir: &str) -> (r: String)
        ensures
            r@ == dir@ + seq!['/'] + probe_name_spec(
                self.stem_view(),
                self.ext_view(),
                self.hex_view(),
                self.probe_count(),
            ),
    {
        let name = self.current_name();
        crate::paths::join_path(dir, name.as_str())
    }

    /// Records that the current name is taken and moves to the next
    /// candidate; after a thousand numbered candidates the resolution is
    /// exhausted and fails.
    pub fn mark_taken(&mut self) -> (r: Result<(), FileOperationError>)
        ensures
            final(self).stem_view() == old(self).stem_view(),
            final(self).ext_view() == old(self).ext_view(),
            final(self).hex_view() == old(self).hex_view(),
            final(self).wf() == old(self).wf(),
            old(self).probe_count() < 1001 ==> r is Ok && final(self).probe_count() == old(
                self,
            ).probe_count() + 1,
            old(self).probe_count() >= 1001 ==> r is Err && r->Err_0 is MoveOperationFailed
                && final(self).probe_count() == old(self).probe_count(),
    {
        if self.probe < 1001 {
            self.probe = self.probe + 1;
            Ok(())
        } else {
            Err(
                FileOperationError::MoveOperationFailed(
                    "Unable to generate unique filename after 1000 attempts".to_owned(),
                ),
            )
        }
    }
}

/// Whether some string in the list reads the same as `s`.
pub open spec fn contains_str(v: Seq<String>, s: Seq<char>) -> bool {
    exists|t: int| 0 <= t < v.len() && v[t]@ == s
}

fn vec_contains_str(v: &Vec<String>, s: &str) -> (r: bool)
    ensures
        r == contains_str(v@, s@),
{
    let sown = s.to_owned();
    let mut i: usize = 0;
    while i < v.len()
        invariant
            sown@ == s@,
            i <= v@.len(),
            forall|t: int| 0 <= t < i ==> v@[t]@ != s@,
        decreases v@.len() - i,
    {
        if v[i].eq(&sown) {
            proof {
                assert(v@[i as int]@ == s@);
            }
            return true;
        }
        i = i + 1;
    }
    false
}

/// Resolves a destination name against an explicit list of occupied names:
/// the first probe not in the list wins. Fails only when the plain name, the
/// token candidate and all thousand numbered candidates are occupied.
pub fn resolve_destination_name(filename: &str, token: u64, occupied: &Vec<String>) -> (r:
    Result<String, FileOperationError>)
    ensures
        r is Ok ==> !contains_str(occupied@, r->Ok_0@),
        r is Ok ==> exists|k: nat|
            k <= 1001 && r->Ok_0@ == probe_name_spec(
                stem_spec(filename@),
                ext_spec(filename@),
                hex_digits(token as nat),
                k,
            ) && forall|k2: nat| k2 < k ==> contains_str(
                occupied@,
                probe_name_spec(
                    stem_spec(filename@),
                    ext_spec(filename@),
                    hex_digits(token as nat),
                    k2,
                ),
            ),
        r is Err ==> r->Err_0 is MoveOperationFailed && forall|k: nat| k <= 1001
            ==> contains_str(
            occupied@,
            probe_name_spec(
                stem_spec(filename@),
                ext_spec(filename@),
                hex_digits(token as nat),
                k,
            ),
        ),
{
    let mut resolver = DestinationResolver::with_token(filename, token);
    loop
        invariant
            resolver.wf(),
            resolver.stem_view() == stem_spec(filename@),
            resolver.ext_view() == ext_spec(filename@),
            resolver.hex_view() == hex_digits(token as nat),
            resolver.probe_count() <= 1001,
            forall|k2: nat| k2 < resolver.probe_count() ==> contains_str(
                occupied@,
                probe_name_spec(
                    stem_spec(filename@),
                    ext_spec(filename@),
                    hex_digits(token as nat),
                    k2,
                ),
            ),
        decreases 1002 - resolver.probe_count(),
    {
        let name = resolver.current_name();
        if !vec_contains_str(occupied, name.as_str()) {
            proof {
                let ghost k = resolver.probe_count();
                assert(name@ == probe_name_spec(
                    stem_spec(filename@),
                    ext_spec(filename@),
                    hex_digits(token as nat),
                    k,
                ));
            }
            return Ok(name);
        }
        match resolver.mark_taken() {
            Ok(()) => {},
            Err(e) => {
                proof {
                    assert(resolver.probe_count() == 1001);
                    assert(contains_str(
                        occupied@,
                        probe_name_spec(
                            stem_spec(filename@),
                            ext_spec(filename@),
                            hex_digits(token as nat),
                            1001,
                        ),
                    ));
                }
                return Err(e);
            },
        }
    }
}

/// The phase a move is in. A move starts by attempting a rename; if that
/// fails it copies, verifies the copy's size, and only then removes the
/// source.
#[derive(Clone, Copy, Debug, PartialEq, Eq, Structural)]
pub enum MovePhase {
    Renaming,
    Copying,
    Verifying,
    RemovingSource,
    Complete,
    Aborted,
}

/// What the filesystem reported about the last commanded action. Failure
/// events carry the underlying error rendered as text.
#[derive(Clone, Debug)]
pub enum MoveEvent {
    RenameSucceeded,
    RenameFailed,
    CopySucceeded,
    CopyFailed(String),
    SizesRead(u64, u64),
    SizeReadFailed(String),
    SourceRemoved,
    SourceRemovalFailed(String),
}

/// The next filesystem action a move asks for. `RemoveDestinationAndFail`
/// asks to delete the corrupt copy at the destination, ignoring any deletion
/// error, and to report the carried error.
#[derive(Debug)]
pub enum MoveCommand {
    CopyToDestination,
    CompareSizes,
    RemoveSource,
    RemoveDestinationAndFail(FileOperationError),
    Fail(FileOperationError),
    Done,
}

/// The phase a move enters when an event arrives. Any event a phase does not
/// expect aborts the move; `Complete` and `Aborted` are absorbing.
pub open spec fn next_phase(p: MovePhase, e: MoveEvent) -> MovePhase {
    match p {
        MovePhase::Renaming => match e {
            MoveEvent::RenameSucceeded => MovePhase::Complete,
            MoveEvent::RenameFailed => MovePhase::Copying,
            _ => MovePhase::Aborted,
        },
        MovePhase::Copying => match e {
            MoveEvent::CopySucceeded => MovePhase::Verifying,
            _ => MovePhase::Aborted,
        },
        MovePhase::Verifying => match e {
            MoveEvent::SizesRead(s, d) => if s == d {
                MovePhase::RemovingSource
            } else {
                MovePhase::Aborted
            },
            _ => MovePhase::Aborted,
        },
        MovePhase::RemovingSource => match e {
            MoveEvent::SourceRemoved => MovePhase::Complete,
            _ => MovePhase::Aborted,
        },
        MovePhase::Complete => MovePhase::Complete,
        MovePhase::Aborted => MovePhase::Aborted,
    }
}

/// The message reported when the copied file's size differs from the
/// source's.
pub open spec fn integrity_message_spec(s: u64, d: u64) -> Seq<char> {
    "File size mismatch: source "@ + dec_digits(s as nat) + " bytes, destination "@
        + dec_digits(d as nat) + " bytes"@
}

/// Feeds one filesystem report into a move and returns the phase the move
/// enters and the action to perform next.
pub fn move_step(phase: MovePhase, event: MoveEvent) -> (r: (MovePhase, MoveCommand))
    ensures
        r.0 == next_phase(phase, event),
        phase is Renaming && event is RenameSucceeded ==> r.1 is Done,
        phase is Renaming && event is RenameFailed ==> r.1 is CopyToDestination,
        phase is Copying && event is CopySucceeded ==> r.1 is CompareSizes,
        phase is Copying && event is CopyFailed ==> r.1 is Fail && r.1->Fail_0 is IoError
            && r.1->Fail_0->IoError_0@ == event->CopyFailed_0@,
        phase is Verifying && event is SizesRead && event->SizesRead_0 == event->SizesRead_1
            ==> r.1 is RemoveSource,
        phase is Verifying && event is SizesRead && event->SizesRead_0 != event->SizesRead_1
            ==> r.1 is RemoveDestinationAndFail && r.1->RemoveDestinationAndFail_0
            is IntegrityCheckFailed && r.1->RemoveDestinationAndFail_0->IntegrityCheckFailed_0@
            == integrity_message_spec(event->SizesRead_0, event->SizesRead_1),
        phase is Verifying && event is SizeReadFailed ==> r.1 is Fail && r.1->Fail_0
            is IoError && r.1->Fail_0->IoError_0@ == event->SizeReadFailed_0@,
        phase is RemovingSource && event is SourceRemoved ==> r.1 is Done,
        phase is RemovingSource && event is SourceRemovalFailed ==> r.1 is Fail && r.1->Fail_0
            is MoveOperationFailed && r.1->Fail_0->MoveOperationFailed_0@
            == "Failed to remove source file after copy: "@ + event->SourceRemovalFailed_0@,
        r.1 is RemoveSource <==> (phase is Verifying && event is SizesRead
            && event->SizesRead_0 == event->SizesRead_1),
        r.0 is Complete ==> r.1 is Done,
        r.0 is Aborted ==> (r.1 is Fail || r.1 is RemoveDestinationAndFail),
{
    match (phase, event) {
        (MovePhase::Renaming, MoveEvent::RenameSucceeded) => (MovePhase::Complete, MoveCommand::Done),
        (MovePhase::Renaming, MoveEvent::RenameFailed) => (
            MovePhase::Copying,
            MoveCommand::CopyToDestination,
        ),
        (MovePhase::Copying, MoveEvent::CopySucceeded) => (
            MovePhase::Verifying,
            MoveCommand::CompareSizes,
        ),
        (MovePhase::Copying, MoveEvent::CopyFailed(m)) => (
            MovePhase::Aborted,
            MoveCommand::Fail(FileOperationError::IoError(m)),
        ),
        (MovePhase::Verifying, MoveEvent::SizesRead(s, d)) => {
            if s == d {
                (MovePhase::RemovingSource, MoveCommand::RemoveSource)
            } else {
                let mut m = "File size mismatch: source ".to_owned();
                let sd = crate::text::u64_to_dec(s);
                m.append(sd.as_str());
                m.append(" bytes, destination ");
                let dd = crate::text::u64_to_dec(d);
                m.append(dd.as_str());
                m.append(" bytes");
                proof {
                    assert(m@ =~= integrity_message_spec(s, d));
                }
                (
                    MovePhase::Aborted,
                    MoveCommand::RemoveDestinationAndFail(
                        FileOperationError::IntegrityCheckFailed(m),
                    ),
                )
            }
        },
        (MovePhase::Verifying, MoveEvent::SizeReadFailed(m)) => (
            MovePhase::Aborted,
            MoveCommand::Fail(FileOperationError::IoError(m)),
        ),
        (MovePhase::RemovingSource, MoveEvent::SourceRemoved) => (
            MovePhase::Complete,
            MoveCommand::Done,
        ),
        (MovePhase::RemovingSource, MoveEvent::SourceRemovalFailed(m)) => {
            let mut msg = "Failed to remove source file after copy: ".to_owned();
            msg.append(m.as_str());
            (
                MovePhase::Aborted,
                MoveCommand::Fail(FileOperationError::MoveOperationFailed(msg)),
            )
        },
        (MovePhase::Complete, _) => (MovePhase::Complete, MoveCommand::Done),
        (p, e) => {
            proof {
                assert(next_phase(p, e) is Aborted);
            }
            (
                MovePhase::Aborted,
                MoveCommand::Fail(
                    FileOperationError::MoveOperationFailed(
                        "unexpected filesystem report during move".to_owned(),
                    ),
                ),
            )
        },
    }
}

/// The phase a move is in after a sequence of filesystem reports, starting
/// from the rename attempt.
pub open spec fn run_phases(events: Seq<MoveEvent>) -> MovePhase
    decreases events.len(),
{
    if events.len() == 0 {
        MovePhase::Renaming
    } else {
        next_phase(run_phases(events.drop_last()), events.last())
    }
}

/// A move verifies sizes only right after a completed copy: whenever a run of
/// events stands in the verification phase, its last event reported the copy
/// as done.
pub proof fn lemma_verifying_entered_only_after_copy(t: Seq<MoveEvent>)
    requires
        run_phases(t) is Verifying,
    ensures
        t.len() >= 1,
        run_phases(t.drop_last()) is Copying,
        t.last() is CopySucceeded,
{
}

/// The source of a move is removed only after a verified copy: the command to
/// remove the source is issued exactly when the move enters the
/// source-removal phase, which happens only on a size report with equal
/// sizes, arriving in the verification phase, which in turn follows a
/// completed copy.
pub proof fn lemma_source_removed_only_after_verified_copy(t: Seq<MoveEvent>, i: int)
    requires
        0 <= i < t.len(),
        next_phase(run_phases(t.take(i)), t[i]) is RemovingSource,
    ensures
        run_phases(t.take(i)) is Verifying,
        t[i] is SizesRead && t[i]->SizesRead_0 == t[i]->SizesRead_1,
        i >= 1 && t[i - 1] is CopySucceeded,
{
    let pre = t.take(i);
    lemma_verifying_entered_only_after_copy(pre);
    assert(pre.last() == t[i - 1]);
}

/// A move completes only through a successful rename, or through removing
/// the source after its copy was verified.
pub proof fn lemma_complete_cause(t: Seq<MoveEvent>)
    requires
        run_phases(t) is Complete,
    ensures
        exists|j: int|
            0 <= j < t.len() && ((run_phases(t.take(j)) is Renaming && t[j]
                is RenameSucceeded) || (run_phases(t.take(j)) is RemovingSource && t[j]
                is SourceRemoved)),
    decreases t.len(),
{
    let last = t.last();
    let rest = t.drop_last();
    if run_phases(rest) is Complete {
        lemma_complete_cause(rest);
        let j = choose|j: int|
            0 <= j < rest.len() && ((run_phases(rest.take(j)) is Renaming && rest[j]
                is RenameSucceeded) || (run_phases(rest.take(j)) is RemovingSource && rest[j]
                is SourceRemoved));
        assert(rest.take(j) =~= t.take(j));
        assert(rest[j] == t[j]);
    } else {
        let j = t.len() - 1;
        assert(t.take(j) =~= rest);
    }
}

} // verus!
