//! The decisions of the tree walk. For every entry of a directory the walker decides whether
//! to inspect it, to descend into it, or to pass it by; for every inspected file, whether it
//! is kept; and for every directory, how the contributions of its entries combine. Opening
//! directories and reading metadata is the caller's part: it may do that work for sibling
//! entries at the same time, and hands each outcome back here.

use vstd::prelude::*;
use crate::error::LffError;
use crate::inspect::{absolute_path_failure, handle_entry, metadata_failure, name_given, record_of};
use crate::path::{hidden_of, path_is_hidden};
use crate::pattern::{glob_accepts, glob_parses, NamePattern};
use crate::record::{LffConfig, LffFile};

verus! {

/// What a directory entry is, as its type says without following a link.
#[derive(Clone, Copy, Debug, PartialEq, Eq, Structural)]
pub enum EntryKind {
    File,
    Directory,
    /// Anything else: a link, a socket, a device.
    Other,
}

/// What to do with a directory entry.
#[derive(Clone, Copy, Debug, PartialEq, Eq, Structural)]
pub enum EntryStep {
    /// Contribute nothing for it.
    Skip,
    /// Inspect the file, and keep it if it passes the filters.
    Inspect,
    /// Open the directory and walk it.
    Descend,
}

/// The glob of `config`, if it sets one.
pub open spec fn pattern_of(config: LffConfig) -> Option<Seq<char>> {
    match config.name_pattern {
        Some(t) => Some(t@),
        None => None,
    }
}

/// The search may stop taking new entries: a limit is set, no order is asked for, and at
/// least `limit` files have been kept so far. With an order the whole set must be seen.
pub open spec fn early_exit(config: LffConfig, produced: nat) -> bool {
    &&& config.sort_method is None
    &&& config.limit matches Some(l) && produced >= l
}

/// What the walk does with an entry of kind `kind` at `path`, once `produced` files have been
/// kept: past the early exit, nothing; a file is inspected; a directory is entered unless it is
/// hidden and hidden entries are excluded; anything else is passed by.
pub open spec fn step_for(config: LffConfig, kind: EntryKind, path: Seq<u8>, produced: nat) -> EntryStep {
    if early_exit(config, produced) {
        EntryStep::Skip
    } else {
        match kind {
            EntryKind::File => EntryStep::Inspect,
            EntryKind::Directory => if config.exclude_hidden && hidden_of(path) {
                EntryStep::Skip
            } else {
                EntryStep::Descend
            },
            EntryKind::Other => EntryStep::Skip,
        }
    }
}

/// A file is kept when it is large enough, has the extension asked for (if any), matches the
/// glob (if any), and is not hidden when hidden files are excluded.
pub open spec fn retained(f: LffFile, config: LffConfig) -> bool {
    &&& f.size >= config.min_size
    &&& (config.extension matches Some(ext) ==> (f.extension matches Some(fe) && fe@ == ext@))
    &&& (pattern_of(config) matches Some(p) ==> glob_accepts(p, f.name@))
    &&& (config.exclude_hidden ==> !f.hidden)
}

/// The files of the successful contributions in `s`, in order.
pub open spec fn joined<T, E>(s: Seq<Result<Vec<T>, E>>) -> Seq<T>
    decreases s.len(),
{
    if s.len() == 0 {
        Seq::empty()
    } else {
        joined(s.drop_last()) + match s.last() {
            Ok(v) => v@,
            Err(_) => Seq::empty(),
        }
    }
}

/// Combines the contributions of the entries of one directory: the first failure if any
/// failed, and otherwise all their files, in order.
pub fn merge_fragments<T, E>(fragments: Vec<Result<Vec<T>, E>>) -> (r: Result<Vec<T>, E>)
    ensures
        r is Err <==> exists|i: int| 0 <= i < fragments@.len() && fragments@[i] is Err,
        r matches Err(e) ==> exists|i: int|
            0 <= i < fragments@.len() && fragments@[i] == Err::<Vec<T>, E>(e) && forall|j: int|
                0 <= j < i ==> #[trigger] fragments@[j] is Ok,
        r matches Ok(v) ==> v@ == joined(fragments@),
{
    let ghost all = fragments@;
    let n = fragments.len();
    let mut out: Vec<T> = Vec::new();
    let mut i: usize = 0;
    // Turned around, so that each contribution can be taken off the end in order.
    let mut pending = fragments;
    let mut rest: Vec<Result<Vec<T>, E>> = Vec::new();
    while pending.len() > 0
        invariant
            all == fragments@,
            pending@ == all.take(all.len() - rest@.len()),
            rest@.len() <= all.len(),
            forall|j: int| 0 <= j < rest@.len() ==> rest@[j] == all[all.len() - 1 - j],
        decreases pending.len(),
    {
        let ghost before = pending@;
        let frag = pending.pop().unwrap();
        rest.push(frag);
        assert(pending@ =~= all.take(all.len() - rest@.len()));
    }
    while rest.len() > 0
        invariant
            i + rest@.len() == all.len(),
            all.len() == n,
            all == fragments@,
            forall|j: int| 0 <= j < rest@.len() ==> rest@[j] == all[all.len() - 1 - j],
            forall|j: int| 0 <= j < i ==> all[j] is Ok,
            out@ == joined(all.take(i as int)),
        decreases rest.len(),
    {
        let ghost before = rest@;
        let frag = rest.pop().unwrap();
        assert(frag == all[i as int]);
        assert(all.take(i + 1).drop_last() =~= all.take(i as int));
        match frag {
            Ok(mut v) => {
                out.append(&mut v);
            },
            Err(e) => {
                assert(all[i as int] is Err);
                return Err(e);
            },
        }
        i = i + 1;
        assert(forall|j: int| 0 <= j < rest@.len() ==> rest@[j] == before[j]);
    }
    assert(all.take(i as int) =~= all);
    Ok(out)
}

/// A search in progress: its settings, with the glob compiled once before any entry is seen.
pub struct Finder {
    config: LffConfig,
    pattern: Option<NamePattern>,
}

impl Finder {
    #[verifier::type_invariant]
    spec fn pattern_matches_config(&self) -> bool {
        match self.pattern {
            Some(p) => pattern_of(self.config) == Some(p@),
            None => self.config.name_pattern is None,
        }
    }

    /// The settings of this search.
    pub closed spec fn settings(&self) -> LffConfig {
        self.config
    }

    /// Starts a search with `config`. A malformed glob ends it here, before any file is
    /// looked at, even when there would be none to match.
    pub fn new(config: LffConfig) -> (r: Result<Finder, LffError>)
        ensures
            r is Ok <==> (pattern_of(config) matches Some(p) ==> glob_parses(p)),
            r matches Ok(f) ==> f.settings() == config,
            r matches Err(e) ==> (e matches LffError::InvalidPattern { pattern, .. } && Some(
                pattern@,
            ) == pattern_of(config)),
    {
        let pattern = match &config.name_pattern {
            Some(text) => match NamePattern::compile(text.as_str()) {
                Ok(p) => Some(p),
                Err(e) => {
                    return Err(e);
                },
            },
            None => None,
        };
        Ok(Finder { config, pattern })
    }

    /// The settings of this search.
    pub fn config(&self) -> (r: &LffConfig)
        ensures
            *r == self.settings(),
    {
        &self.config
    }

    /// What to do with the entry of kind `kind` at `path`, once `produced` files have been
    /// kept in the whole search so far. When entries are handled at the same time, `produced`
    /// may lag behind: stopping early is a saving, not a bound.
    pub fn plan_entry(&self, kind: EntryKind, path: &[u8], produced: usize) -> (r: EntryStep)
        ensures
            r == step_for(self.settings(), kind, path@, produced as nat),
    {
        if self.config.sort_method.is_none() {
            if let Some(l) = self.config.limit {
                if produced >= l {
                    return EntryStep::Skip;
                }
            }
        }
        match kind {
            EntryKind::File => EntryStep::Inspect,
            EntryKind::Directory => {
                if self.config.exclude_hidden && path_is_hidden(path) {
                    EntryStep::Skip
                } else {
                    EntryStep::Descend
                }
            },
            EntryKind::Other => EntryStep::Skip,
        }
    }

    /// Whether `file` passes every filter of this search.
    pub fn retains(&self, file: &LffFile) -> (r: bool)
        ensures
            r == retained(*file, self.settings()),
    {
        proof {
            use_type_invariant(self);
        }
        if file.size < self.config.min_size {
            return false;
        }
        if let Some(ext) = &self.config.extension {
            match &file.extension {
                Some(fe) => {
                    if !bytes_equal(fe.as_slice(), ext.as_slice()) {
                        return false;
                    }
                },
                None => {
                    return false;
                },
            }
        }
        if let Some(p) = &self.pattern {
            if !p.accepts(file.name.as_slice()) {
                return false;
            }
        }
        !(self.config.exclude_hidden && file.hidden)
    }

    /// The contribution of the file at `path`: its record if it passes the filters, nothing if
    /// it does not, or the failure to inspect it. `absolute_path` and `size` are as for
    /// `handle_entry`.
    pub fn handle_file(
        &self,
        path: &[u8],
        absolute_path: Option<Result<Vec<u8>, String>>,
        size: Result<u64, String>,
    ) -> (r: Result<Vec<LffFile>, LffError>)
        requires
            self.settings().absolute ==> absolute_path is Some,
        ensures
            r is Ok <==> (self.settings().absolute ==> absolute_path matches Some(Ok(_)))
                && size is Ok,
            r matches Ok(v) ==> v@.len() <= 1,
            r matches Ok(v) ==> (v@.len() == 1 ==> retained(v@[0], self.settings()) && record_of(
                v@[0],
                path@,
                name_given(path@, absolute_path, self.settings()),
                size->Ok_0,
                self.settings(),
            )),
            r matches Ok(v) ==> (v@.len() == 0 ==> forall|f: LffFile|
                record_of(
                    f,
                    path@,
                    name_given(path@, absolute_path, self.settings()),
                    size->Ok_0,
                    self.settings(),
                ) ==> !#[trigger] retained(f, self.settings())),
            (self.settings().absolute && absolute_path->Some_0 is Err) ==> r is Err
                && absolute_path_failure(r->Err_0, path@, absolute_path->Some_0->Err_0@),
            (!(self.settings().absolute && absolute_path->Some_0 is Err) && size is Err) ==> r is Err
                && metadata_failure(r->Err_0, path@, size->Err_0@),
    {
        let file = handle_entry(path, absolute_path, size, &self.config)?;
        if self.retains(&file) {
            Ok(vec![file])
        } else {
            Ok(Vec::new())
        }
    }
}

/// Whether two byte strings are equal.
pub fn bytes_equal(a: &[u8], b: &[u8]) -> (r: bool)
    ensures
        r == (a@ == b@),
{
    if a.len() != b.len() {
        return false;
    }
    let mut i: usize = 0;
    while i < a.len()
        invariant
            i <= a@.len() == b@.len(),
            a@.subrange(0, i as int) == b@.subrange(0, i as int),
        decreases a.len() - i,
    {
        if a[i] != b[i] {
            return false;
        }
        assert(a@.subrange(0, i + 1) =~= a@.subrange(0, i as int).push(a[i as int]));
        assert(b@.subrange(0, i + 1) =~= b@.subrange(0, i as int).push(b[i as int]));
        i = i + 1;
    }
    assert(a@ =~= a@.subrange(0, i as int));
    assert(b@ =~= b@.subrange(0, i as int));
    true
}

/// The contribution of a directory that could not be opened. The directory a search starts
/// from must open: its failure ends the search, naming it as it was given. Any directory met
/// below it that cannot be opened is passed over and contributes nothing.
pub fn open_failure(is_root: bool, directory: &str, cause: String) -> (r: Result<
    Vec<LffFile>,
    LffError,
>)
    ensures
        is_root ==> (r matches Err(LffError::StartDirectory { directory: d, cause: c }) && d@
            == directory@ && c@ == cause@),
        !is_root ==> (r matches Ok(v) && v@.len() == 0),
{
    if is_root {
        Err(LffError::StartDirectory { directory: String::from_str(directory), cause })
    } else {
        Ok(Vec::new())
    }
}

/// With no filters and no limit, every regular file met is inspected, every directory met is
/// entered, anything else is passed by, and every inspected file is kept. These are the steps
/// of a search that keeps every regular file it reaches: `merge_fragments` then joins all that
/// the entries of a directory contribute, and `open_failure` leaves out only the directories
/// below the root that cannot be opened.
pub proof fn unfiltered_search_keeps_every_file(config: LffConfig)
    requires
        config.min_size == 0,
        config.extension is None,
        config.name_pattern is None,
        !config.exclude_hidden,
        config.limit is None,
    ensures
        forall|path: Seq<u8>, produced: nat|
            #[trigger] step_for(config, EntryKind::File, path, produced) == EntryStep::Inspect,
        forall|path: Seq<u8>, produced: nat|
            #[trigger] step_for(config, EntryKind::Directory, path, produced) == EntryStep::Descend,
        forall|path: Seq<u8>, produced: nat|
            #[trigger] step_for(config, EntryKind::Other, path, produced) == EntryStep::Skip,
        forall|f: LffFile| #[trigger] retained(f, config),
{
}

/// When hidden entries are excluded, a hidden directory is never entered, whatever the other
/// settings and however many files have been kept; so nothing below it is looked at. A hidden
/// file is never kept either.
pub proof fn hidden_directories_are_pruned(config: LffConfig, path: Seq<u8>, produced: nat)
    requires
        config.exclude_hidden,
        hidden_of(path),
    ensures
        step_for(config, EntryKind::Directory, path, produced) == EntryStep::Skip,
        forall|f: LffFile| f.hidden ==> !#[trigger] retained(f, config),
{
}

/// When an order is asked for, a search never stops early: every entry is handled as if no
/// limit were set, so the limit is applied only to the whole ordered set.
pub proof fn ordered_search_sees_every_entry(
    config: LffConfig,
    kind: EntryKind,
    path: Seq<u8>,
    produced: nat,
)
    requires
        config.sort_method is Some,
    ensures
        step_for(config, kind, path, produced) == step_for(
            LffConfig { limit: None, ..config },
            kind,
            path,
            0,
        ),
{
}

} // verus!
