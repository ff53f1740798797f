//! Which Cargo inputs a run was given, and what they resolve to.
use vstd::prelude::*;

use std::path::PathBuf;

use crate::model::RustContext;
use crate::text::{
    opt_text,
    chars_of, chars_replace, compare_strings, contains_seq, lex_lt, lemma_lex_irreflexive, lemma_lex_total,
    lemma_lex_transitive, str_contains, Precedence, dec, push_dec, chars_eq, chars_has, has_char, trim, chars_trim, copy_opt_string, copy_string, copy_strings, join, join_chars, first_match,
    lemma_first_match_found, lemma_first_match_none, chars_split_all, eq_ignore_case, is_suffix, push_all, push_str_chars,
    replace_char, split_all, str_ends_with, str_eq, str_eq_ignore_case, string_of, views,
};

verus! {

/// Whether the analysed artifact is resolved from Cargo's output.
#[derive(Debug, Clone, Copy, PartialEq, Eq, Structural)]
pub enum ResolveRustArtifactMode {
    Auto,
    Strict,
    Off,
}

/// The Cargo inputs of a run.
#[derive(Debug, Clone, PartialEq, Eq)]
pub struct RustInputs {
    pub cargo_metadata: Option<PathBuf>,
    pub cargo_build_json: Option<PathBuf>,
    pub cargo_workspace: Option<PathBuf>,
    pub cargo_target_name: Option<String>,
    pub cargo_package: Option<String>,
    pub cargo_target_kind: Option<String>,
    pub cargo_target_triple: Option<String>,
    pub resolve_artifact: ResolveRustArtifactMode,
    pub allow_target_dir_fallback: bool,
}

impl Default for RustInputs {
    /// No Cargo input at all.
    fn default() -> (r: Self)
        ensures
            r.cargo_metadata is None,
            r.cargo_build_json is None,
            r.cargo_workspace is None,
            r.cargo_target_name is None,
            r.cargo_package is None,
            r.cargo_target_kind is None,
            r.cargo_target_triple is None,
            r.resolve_artifact == ResolveRustArtifactMode::Off,
            !r.allow_target_dir_fallback,
    {
        RustInputs {
            cargo_metadata: None,
            cargo_build_json: None,
            cargo_workspace: None,
            cargo_target_name: None,
            cargo_package: None,
            cargo_target_kind: None,
            cargo_target_triple: None,
            resolve_artifact: ResolveRustArtifactMode::Off,
            allow_target_dir_fallback: false,
        }
    }
}

/// The artifact to analyse and the Cargo context it was built in.
#[derive(Debug, Clone, PartialEq, Eq)]
pub struct RustResolution {
    pub resolved_elf: Option<String>,
    pub rust_context: Option<RustContext>,
}

/// Some Cargo input was given.
pub open spec fn any_rust_input(i: RustInputs) -> bool {
    ||| i.cargo_metadata is Some
    ||| i.cargo_build_json is Some
    ||| i.cargo_workspace is Some
    ||| i.cargo_target_name is Some
    ||| i.cargo_package is Some
    ||| i.cargo_target_kind is Some
    ||| i.cargo_target_triple is Some
    ||| i.allow_target_dir_fallback
    ||| i.resolve_artifact != ResolveRustArtifactMode::Off
}

/// Whether any Cargo input was given.
pub fn has_rust_inputs(inputs: &RustInputs) -> (r: bool)
    ensures
        r == any_rust_input(*inputs),
{
    inputs.cargo_metadata.is_some() || inputs.cargo_build_json.is_some() || inputs.cargo_workspace.is_some()
        || inputs.cargo_target_name.is_some() || inputs.cargo_package.is_some()
        || inputs.cargo_target_kind.is_some() || inputs.cargo_target_triple.is_some()
        || inputs.allow_target_dir_fallback || inputs.resolve_artifact != ResolveRustArtifactMode::Off
}

/// Whether the inputs ask for an artifact to be resolved from Cargo's output.
pub fn resolution_requested(inputs: &RustInputs) -> (r: bool)
    ensures
        r == (any_rust_input(*inputs) && inputs.resolve_artifact != ResolveRustArtifactMode::Off),
{
    has_rust_inputs(inputs) && inputs.resolve_artifact != ResolveRustArtifactMode::Off
}

// ---------------------------------------------------------------------------
// What Cargo reports
// ---------------------------------------------------------------------------
/// One target of a Cargo package.
#[derive(Debug, Clone, PartialEq, Eq)]
pub struct CargoTarget {
    pub name: String,
    pub kind: Vec<String>,
    pub crate_types: Vec<String>,
    pub edition: Option<String>,
}

/// One package of a Cargo workspace.
#[derive(Debug, Clone, PartialEq, Eq)]
pub struct CargoPackage {
    pub id: String,
    pub name: String,
    pub manifest_path: String,
    pub edition: Option<String>,
    pub targets: Vec<CargoTarget>,
}

/// What `cargo metadata` reports of a workspace.
#[derive(Debug, Clone, PartialEq, Eq)]
pub struct CargoMetadata {
    pub workspace_root: String,
    pub target_directory: String,
    pub workspace_members: Vec<String>,
    pub packages: Vec<CargoPackage>,
}

/// An artifact that a Cargo build reported.
#[derive(Debug, Clone, PartialEq, Eq)]
pub struct RustArtifactCandidate {
    pub package_id: String,
    pub target_name: String,
    pub target_kind: Vec<String>,
    pub crate_types: Vec<String>,
    pub profile: Option<String>,
    pub target_triple: Option<String>,
    pub executable: Option<String>,
    pub filenames: Vec<String>,
    pub fresh: bool,
}

// ---------------------------------------------------------------------------
// Names and paths
// ---------------------------------------------------------------------------
/// The index of the last `c` in `s`.
pub open spec fn last_index_of(s: Seq<char>, c: char) -> Option<int>
    decreases s.len(),
{
    if s.len() == 0 {
        None
    } else if s.last() == c {
        Some(s.len() - 1)
    } else {
        last_index_of(s.drop_last(), c)
    }
}

/// The index of the first `c` in `s`.
pub open spec fn first_index_of(s: Seq<char>, c: char) -> Option<int>
    decreases s.len(),
{
    if s.len() == 0 {
        None
    } else if s[0] == c {
        Some(0)
    } else {
        match first_index_of(s.drop_first(), c) {
            Some(i) => Some(i + 1),
            None => None,
        }
    }
}

/// The package name in a package id: after the last `#`, up to the first `@`.
pub open spec fn package_name_of(id: Seq<char>) -> Seq<char> {
    let tail = match last_index_of(id, '#') {
        Some(i) => id.skip(i + 1),
        None => id,
    };
    match first_index_of(tail, '@') {
        Some(j) => tail.take(j),
        None => tail,
    }
}

fn find_last_char(s: &Vec<char>, c: char) -> (r: Option<usize>)
    ensures
        match r {
            Some(i) => last_index_of(s@, c) == Some(i as int) && i < s@.len(),
            None => last_index_of(s@, c) is None,
        },
{
    let mut i: usize = s.len();
    assert(s@.take(s.len() as int) =~= s@);
    while i > 0
        invariant
            i <= s.len(),
            last_index_of(s@, c) == last_index_of(s@.take(i as int), c),
        decreases i,
    {
        assert(s@.take(i as int).drop_last() =~= s@.take(i - 1));
        if s[i - 1] == c {
            return Some(i - 1);
        }
        i -= 1;
    }
    None
}

proof fn lemma_first_index_at(s: Seq<char>, c: char, i: int)
    requires
        0 <= i <= s.len(),
        forall|k: int| 0 <= k < i ==> s[k] != c,
    ensures
        i < s.len() && s[i] == c ==> first_index_of(s, c) == Some(i),
        i == s.len() ==> first_index_of(s, c) is None,
    decreases i,
{
    if i > 0 {
        lemma_first_index_at(s.drop_first(), c, i - 1);
    }
}

fn find_first_char(s: &Vec<char>, c: char) -> (r: Option<usize>)
    ensures
        match r {
            Some(i) => first_index_of(s@, c) == Some(i as int) && i < s@.len(),
            None => first_index_of(s@, c) is None,
        },
{
    let mut i: usize = 0;
    while i < s.len()
        invariant
            i <= s.len(),
            forall|k: int| 0 <= k < i ==> s@[k] != c,
        decreases s.len() - i,
    {
        if s[i] == c {
            proof {
                lemma_first_index_at(s@, c, i as int);
            }
            return Some(i);
        }
        i += 1;
    }
    proof {
        lemma_first_index_at(s@, c, i as int);
    }
    None
}

/// The package name in a Cargo package id (`path+file:///w/app#app@0.1.0` gives `app`).
pub fn package_name_from_id(id: &str) -> (r: Option<String>)
    ensures
        r is Some,
        r->0@ == package_name_of(id@),
{
    let v = chars_of(id);
    let tail: Vec<char> = match find_last_char(&v, '#') {
        Some(i) => {
            assert(i < v.len());
            let mut t: Vec<char> = Vec::new();
            let mut k: usize = i + 1;
            while k < v.len()
                invariant
                    i + 1 <= k <= v.len(),
                    t@ == v@.subrange(i + 1, k as int),
                decreases v.len() - k,
            {
                t.push(v[k]);
                assert(v@.subrange(i + 1, k + 1) =~= v@.subrange(i + 1, k as int).push(v@[k as int]));
                k += 1;
            }
            assert(t@ =~= v@.skip(i + 1));
            t
        },
        None => v,
    };
    let name: Vec<char> = match find_first_char(&tail, '@') {
        Some(j) => {
            let mut t: Vec<char> = Vec::new();
            let mut k: usize = 0;
            while k < j
                invariant
                    k <= j < tail.len(),
                    t@ == tail@.take(k as int),
                decreases j - k,
            {
                t.push(tail[k]);
                assert(tail@.take(k + 1) =~= tail@.take(k as int).push(tail@[k as int]));
                k += 1;
            }
            t
        },
        None => tail,
    };
    Some(string_of(&name))
}

/// A path with back slashes turned into slashes.
pub open spec fn normalized_path(p: Seq<char>) -> Seq<char> {
    replace_char(p, '\\', seq!['/'])
}

/// A path with back slashes turned into slashes.
pub fn normalize_path_string(path: &str) -> (r: String)
    ensures
        r@ == normalized_path(path@),
{
    let v = chars_of(path);
    let slash: Vec<char> = vec!['/'];
    assert(slash@ =~= seq!['/']);
    string_of(&chars_replace(&v, '\\', &slash))
}

/// The last component of a slash-separated path that names something: the
/// empty components and `.` are skipped.
pub open spec fn last_named_component(parts: Seq<Seq<char>>) -> Option<Seq<char>>
    decreases parts.len(),
{
    if parts.len() == 0 {
        None
    } else if parts.last().len() == 0 || parts.last() == seq!['.'] {
        last_named_component(parts.drop_last())
    } else {
        Some(parts.last())
    }
}

/// The file name of a path (as `Path::file_name` gives it): its last
/// component, unless that is `..` or there is none.
pub open spec fn file_name_of(p: Seq<char>) -> Option<Seq<char>> {
    match last_named_component(split_all(p, seq!['/'])) {
        Some(c) => if c == seq!['.', '.'] {
            None
        } else {
            Some(c)
        },
        None => None,
    }
}

/// The extension of a file name (as `Path::extension` gives it): what follows
/// the last dot, unless there is no dot or the only one opens the name.
pub open spec fn extension_of(name: Seq<char>) -> Option<Seq<char>> {
    match last_index_of(name, '.') {
        Some(i) => if i == 0 {
            None
        } else {
            Some(name.skip(i + 1))
        },
        None => None,
    }
}

/// The file name of a path.
pub fn file_name(path: &str) -> (r: Option<Vec<char>>)
    ensures
        match r {
            Some(n) => file_name_of(path@) == Some(n@),
            None => file_name_of(path@) is None,
        },
{
    let v = chars_of(path);
    let sep: Vec<char> = vec!['/'];
    assert(sep@ =~= seq!['/']);
    let parts = chars_split_all(&v, &sep);
    let ghost ps = views(parts@);
    let mut i: usize = parts.len();
    assert(ps.take(parts.len() as int) =~= ps);
    while i > 0
        invariant
            i <= parts.len(),
            ps == views(parts@),
            ps == split_all(path@, seq!['/']),
            last_named_component(ps) == last_named_component(ps.take(i as int)),
        decreases i,
    {
        assert(ps.take(i as int).drop_last() =~= ps.take(i - 1));
        assert(ps.take(i as int).last() == parts@[i - 1]@);
        let part = &parts[i - 1];
        if part.len() == 0 || (part.len() == 1 && part[0] == '.') {
            assert(part@.len() == 0 || part@ =~= seq!['.']);
            i -= 1;
        } else {
            assert(part@ != seq!['.']) by {
                if part@.len() == 1 {
                    assert(part@[0] != '.');
                }
            }
            assert(ps.take(i as int).len() > 0);
            assert(last_named_component(ps.take(i as int)) == Some(part@));
            if part.len() == 2 && part[0] == '.' && part[1] == '.' {
                assert(part@ =~= seq!['.', '.']);
                return None;
            }
            assert(part@ != seq!['.', '.']) by {
                if part@.len() == 2 {
                    assert(part@[0] != '.' || part@[1] != '.');
                }
            }
            let mut out: Vec<char> = Vec::new();
            push_all(&mut out, part);
            assert(out@ =~= part@);
            return Some(out);
        }
    }
    assert(ps.take(0) =~= Seq::<Seq<char>>::empty());
    None
}

fn extension(name: &Vec<char>) -> (r: Option<Vec<char>>)
    ensures
        match r {
            Some(e) => extension_of(name@) == Some(e@),
            None => extension_of(name@) is None,
        },
{
    match find_last_char(name, '.') {
        Some(i) => {
            assert(i < name.len());
            if i == 0 {
                return None;
            }
            let mut t: Vec<char> = Vec::new();
            let mut k: usize = i + 1;
            while k < name.len()
                invariant
                    i + 1 <= k <= name.len(),
                    t@ == name@.subrange(i + 1, k as int),
                decreases name.len() - k,
            {
                t.push(name[k]);
                assert(name@.subrange(i + 1, k + 1) =~= name@.subrange(i + 1, k as int).push(name@[k as int]));
                k += 1;
            }
            assert(t@ =~= name@.skip(i + 1));
            Some(t)
        },
        None => None,
    }
}

/// Whether a path names something the analysis can read: not a dependency
/// file, library archive, metadata file or object, and either without
/// extension or with one of `elf`, `exe`, `so`, `dylib`, `dll` (in any case).
pub open spec fn analyzable_path(p: Seq<char>) -> bool {
    match file_name_of(p) {
        None => false,
        Some(name) => if is_suffix(".d"@, name) || is_suffix(".rlib"@, name) || is_suffix(".rmeta"@, name)
            || is_suffix(".o"@, name) {
            false
        } else {
            match extension_of(name) {
                None => true,
                Some(ext) => eq_ignore_case(ext, "elf"@) || eq_ignore_case(ext, "exe"@) || eq_ignore_case(
                    ext,
                    "so"@,
                ) || eq_ignore_case(ext, "dylib"@) || eq_ignore_case(ext, "dll"@),
            }
        },
    }
}

/// Whether a path names an artifact the analysis can read.
pub fn is_analyzable_artifact(path: &str) -> (r: bool)
    ensures
        r == analyzable_path(path@),
{
    let name = match file_name(path) {
        Some(n) => n,
        None => return false,
    };
    let name_text = string_of(&name);
    if str_ends_with(name_text.as_str(), ".d") || str_ends_with(name_text.as_str(), ".rlib") || str_ends_with(
        name_text.as_str(),
        ".rmeta",
    ) || str_ends_with(name_text.as_str(), ".o") {
        return false;
    }
    match extension(&name) {
        None => true,
        Some(ext) => {
            let e = string_of(&ext);
            str_eq_ignore_case(e.as_str(), "elf") || str_eq_ignore_case(e.as_str(), "exe") || str_eq_ignore_case(
                e.as_str(),
                "so",
            ) || str_eq_ignore_case(e.as_str(), "dylib") || str_eq_ignore_case(e.as_str(), "dll")
        },
    }
}

/// A candidate as text: package id, target name, kinds, crate types, profile,
/// triple, executable, file names and freshness.
pub type CandidateText = (
    Seq<char>,
    Seq<char>,
    Seq<Seq<char>>,
    Seq<Seq<char>>,
    Option<Seq<char>>,
    Option<Seq<char>>,
    Option<Seq<char>>,
    Seq<Seq<char>>,
    bool,
);

/// The texts of a list of strings.
pub open spec fn strs_view(v: Seq<String>) -> Seq<Seq<char>> {
    v.map_values(|t: String| t@)
}

impl View for RustArtifactCandidate {
    type V = CandidateText;

    open spec fn view(&self) -> CandidateText {
        (
            self.package_id@,
            self.target_name@,
            strs_view(self.target_kind@),
            strs_view(self.crate_types@),
            opt_text(self.profile),
            opt_text(self.target_triple),
            opt_text(self.executable),
            strs_view(self.filenames@),
            self.fresh,
        )
    }
}

/// The texts of a list of candidates.
pub open spec fn cand_texts(v: Seq<RustArtifactCandidate>) -> Seq<CandidateText> {
    v.map_values(|c: RustArtifactCandidate| c@)
}

fn copy_candidate(c: &RustArtifactCandidate) -> (out: RustArtifactCandidate)
    ensures
        out@ == c@,
{
    RustArtifactCandidate {
        package_id: copy_string(&c.package_id),
        target_name: copy_string(&c.target_name),
        target_kind: copy_strings(&c.target_kind),
        crate_types: copy_strings(&c.crate_types),
        profile: copy_opt_string(&c.profile),
        target_triple: copy_opt_string(&c.target_triple),
        executable: copy_opt_string(&c.executable),
        filenames: copy_strings(&c.filenames),
        fresh: c.fresh,
    }
}

/// Whether a candidate passes the package, target-name, kind and triple filters
/// of the inputs (a candidate without a known triple passes the triple filter).
pub open spec fn candidate_selected(c: CandidateText, i: RustInputs) -> bool {
    &&& match i.cargo_package {
        Some(v) => c.0 == v@ || package_name_of(c.0) == v@,
        None => true,
    }
    &&& match i.cargo_target_name {
        Some(v) => c.1 == v@,
        None => true,
    }
    &&& match i.cargo_target_kind {
        Some(v) => c.2.contains(v@),
        None => true,
    }
    &&& match i.cargo_target_triple {
        Some(v) => match c.5 {
            Some(t) => t == v@,
            None => true,
        },
        None => true,
    }
}

/// The candidates that pass the filters, in order.
pub open spec fn selected_candidates(s: Seq<CandidateText>, i: RustInputs) -> Seq<CandidateText>
    decreases s.len(),
{
    if s.len() == 0 {
        s
    } else if candidate_selected(s.last(), i) {
        selected_candidates(s.drop_last(), i).push(s.last())
    } else {
        selected_candidates(s.drop_last(), i)
    }
}

fn has_kind(kinds: &Vec<String>, v: &str) -> (r: bool)
    ensures
        r == strs_view(kinds@).contains(v@),
{
    let mut i: usize = 0;
    while i < kinds.len()
        invariant
            0 <= i <= kinds.len(),
            forall|k: int| 0 <= k < i ==> kinds@[k]@ != v@,
        decreases kinds.len() - i,
    {
        if str_eq(kinds[i].as_str(), v) {
            assert(strs_view(kinds@)[i as int] == v@);
            return true;
        }
        i += 1;
    }
    assert(!strs_view(kinds@).contains(v@)) by {
        if strs_view(kinds@).contains(v@) {
            let k = choose|k: int| 0 <= k < strs_view(kinds@).len() && strs_view(kinds@)[k] == v@;
            assert(kinds@[k]@ == v@);
        }
    }
    false
}

/// Whether a candidate passes the filters of the inputs.
pub fn is_candidate_selected(c: &RustArtifactCandidate, inputs: &RustInputs) -> (r: bool)
    ensures
        r == candidate_selected(c@, *inputs),
{
    let package_ok = match &inputs.cargo_package {
        Some(v) => str_eq(c.package_id.as_str(), v.as_str()) || {
            let name = package_name_from_id(c.package_id.as_str()).unwrap();
            str_eq(name.as_str(), v.as_str())
        },
        None => true,
    };
    let name_ok = match &inputs.cargo_target_name {
        Some(v) => str_eq(c.target_name.as_str(), v.as_str()),
        None => true,
    };
    let kind_ok = match &inputs.cargo_target_kind {
        Some(v) => has_kind(&c.target_kind, v.as_str()),
        None => true,
    };
    let triple_ok = match &inputs.cargo_target_triple {
        Some(v) => match &c.target_triple {
            Some(t) => str_eq(t.as_str(), v.as_str()),
            None => true,
        },
        None => true,
    };
    package_ok && name_ok && kind_ok && triple_ok
}

/// The candidates that pass the package, target-name, kind and triple filters.
pub fn filter_candidates(candidates: &Vec<RustArtifactCandidate>, inputs: &RustInputs) -> (out: Vec<RustArtifactCandidate>)
    ensures
        cand_texts(out@) == selected_candidates(cand_texts(candidates@), *inputs),
{
    let mut out: Vec<RustArtifactCandidate> = Vec::new();
    let mut i: usize = 0;
    assert(cand_texts(candidates@).take(0) =~= Seq::<CandidateText>::empty());
    while i < candidates.len()
        invariant
            0 <= i <= candidates.len(),
            cand_texts(out@) == selected_candidates(cand_texts(candidates@).take(i as int), *inputs),
        decreases candidates.len() - i,
    {
        let ghost all = cand_texts(candidates@);
        assert(all.take(i + 1).drop_last() =~= all.take(i as int));
        assert(all.take(i + 1).last() == candidates@[i as int]@);
        if is_candidate_selected(&candidates[i], inputs) {
            let ghost before = out@;
            out.push(copy_candidate(&candidates[i]));
            assert(cand_texts(out@) =~= cand_texts(before).push(candidates@[i as int]@));
        }
        i += 1;
    }
    assert(cand_texts(candidates@).take(candidates.len() as int) =~= cand_texts(candidates@));
    out
}

/// The paths a candidate reports: its executable, then its files.
pub open spec fn candidate_path_texts(c: CandidateText) -> Seq<Seq<char>> {
    match c.6 {
        Some(e) => seq![e] + c.7,
        None => c.7,
    }
}

/// The artifact of a candidate the analysis can read: its executable when
/// that is readable, else the first readable file.
pub open spec fn artifact_path_of(c: CandidateText) -> Option<Seq<char>> {
    match c.6 {
        Some(e) if analyzable_path(e) => Some(e),
        _ => first_match(c.7, |p: Seq<char>| analyzable_path(p)),
    }
}

/// The artifact of a candidate the analysis can read, if any.
pub fn select_artifact_path(c: &RustArtifactCandidate) -> (r: Option<String>)
    ensures
        opt_text(r) == artifact_path_of(c@),
{
    if let Some(e) = &c.executable {
        if is_analyzable_artifact(e.as_str()) {
            return Some(copy_string(e));
        }
    }
    let ghost files = strs_view(c.filenames@);
    let mut i: usize = 0;
    while i < c.filenames.len()
        invariant
            0 <= i <= c.filenames.len(),
            files == strs_view(c.filenames@),
            c.executable is Some ==> !analyzable_path(c.executable->0@),
            forall|k: int| 0 <= k < i ==> !analyzable_path(#[trigger] files[k]),
        decreases c.filenames.len() - i,
    {
        if is_analyzable_artifact(c.filenames[i].as_str()) {
            proof {
                lemma_first_match_found(files, |p: Seq<char>| analyzable_path(p), i as int);
            }
            return Some(copy_string(&c.filenames[i]));
        }
        i += 1;
    }
    proof {
        lemma_first_match_none(files, |p: Seq<char>| analyzable_path(p));
    }
    None
}

/// Whether one of the candidate's paths is the given path, slashes normalized.
pub open spec fn names_path(c: CandidateText, explicit: Seq<char>) -> bool {
    exists|k: int|
        0 <= k < candidate_path_texts(c).len() && normalized_path(#[trigger] candidate_path_texts(c)[k])
            == normalized_path(explicit)
}

/// The candidates that name the given path, in order.
pub open spec fn exact_matches(s: Seq<CandidateText>, explicit: Seq<char>) -> Seq<CandidateText>
    decreases s.len(),
{
    if s.len() == 0 {
        s
    } else if names_path(s.last(), explicit) {
        exact_matches(s.drop_last(), explicit).push(s.last())
    } else {
        exact_matches(s.drop_last(), explicit)
    }
}

/// The candidate that gives the Cargo context of an artifact named on the
/// command line: the one filtered candidate naming it, else the only one.
pub open spec fn context_candidate_for(explicit: Seq<char>, cands: Seq<CandidateText>, i: RustInputs) -> Option<CandidateText> {
    let f = selected_candidates(cands, i);
    if f.len() == 0 {
        None
    } else {
        let e = exact_matches(f, explicit);
        if e.len() == 1 {
            Some(e[0])
        } else if f.len() == 1 {
            Some(f[0])
        } else {
            None
        }
    }
}

fn candidate_names_path(c: &RustArtifactCandidate, explicit: &String) -> (r: bool)
    requires
        explicit@ == normalized_path(explicit@),
    ensures
        r == exists|k: int|
            0 <= k < candidate_path_texts(c@).len() && normalized_path(
                #[trigger] candidate_path_texts(c@)[k],
            ) == explicit@,
{
    let ghost paths = candidate_path_texts(c@);
    let mut offset: usize = 0;
    if let Some(e) = &c.executable {
        let n = normalize_path_string(e.as_str());
        assert(paths[0] == e@);
        if str_eq(n.as_str(), explicit.as_str()) {
            return true;
        }
        offset = 1;
    }
    let mut i: usize = 0;
    while i < c.filenames.len()
        invariant
            0 <= i <= c.filenames.len(),
            paths == candidate_path_texts(c@),
            offset == (if c.executable is Some { 1usize } else { 0usize }),
            paths.len() == offset + c.filenames.len(),
            forall|k: int| 0 <= k < offset + i ==> normalized_path(#[trigger] paths[k]) != explicit@,
        decreases c.filenames.len() - i,
    {
        let n = normalize_path_string(c.filenames[i].as_str());
        assert(paths[offset + i] == c.filenames@[i as int]@);
        if str_eq(n.as_str(), explicit.as_str()) {
            return true;
        }
        i += 1;
    }
    false
}

/// The candidate that gives the Cargo context of an artifact named on the command line.
pub fn select_context_candidate_for_explicit(
    explicit_elf: &str,
    candidates: &Vec<RustArtifactCandidate>,
    inputs: &RustInputs,
) -> (r: Option<RustArtifactCandidate>)
    ensures
        match r {
            Some(c) => context_candidate_for(explicit_elf@, cand_texts(candidates@), *inputs) == Some(c@),
            None => context_candidate_for(explicit_elf@, cand_texts(candidates@), *inputs) is None,
        },
{
    let filtered = filter_candidates(candidates, inputs);
    if filtered.len() == 0 {
        return None;
    }
    let explicit = normalize_path_string(explicit_elf);
    proof {
        crate::text::lemma_replace_char_idempotent(explicit_elf@, '\\', '/');
    }
    let ghost f = cand_texts(filtered@);
    let mut exact: Vec<RustArtifactCandidate> = Vec::new();
    let mut i: usize = 0;
    assert(f.take(0) =~= Seq::<CandidateText>::empty());
    while i < filtered.len()
        invariant
            0 <= i <= filtered.len(),
            f == cand_texts(filtered@),
            explicit@ == normalized_path(explicit_elf@),
            explicit@ == normalized_path(explicit@),
            cand_texts(exact@) == exact_matches(f.take(i as int), explicit_elf@),
        decreases filtered.len() - i,
    {
        assert(f.take(i + 1).drop_last() =~= f.take(i as int));
        assert(f.take(i + 1).last() == filtered@[i as int]@);
        if candidate_names_path(&filtered[i], &explicit) {
            let ghost before = exact@;
            exact.push(copy_candidate(&filtered[i]));
            assert(cand_texts(exact@) =~= cand_texts(before).push(filtered@[i as int]@));
        }
        i += 1;
    }
    assert(f.take(filtered.len() as int) =~= f);
    if exact.len() == 1 {
        return Some(copy_candidate(&exact[0]));
    }
    if filtered.len() == 1 {
        return Some(copy_candidate(&filtered[0]));
    }
    None
}

/// How a candidate is listed when several match.
pub open spec fn describe_text(c: CandidateText) -> Seq<char> {
    "  - package="@ + package_name_of(c.0) + " target="@ + c.1 + " kind="@ + join(c.2, ","@) + " artifact="@
        + match artifact_path_of(c) {
        Some(p) => p,
        None => "<no analyzable artifact>"@,
    }
}

/// The candidates that have an artifact the analysis can read, in order.
pub open spec fn analyzable_candidates(s: Seq<CandidateText>) -> Seq<CandidateText>
    decreases s.len(),
{
    if s.len() == 0 {
        s
    } else if artifact_path_of(s.last()) is Some {
        analyzable_candidates(s.drop_last()).push(s.last())
    } else {
        analyzable_candidates(s.drop_last())
    }
}

/// The error when the filtered candidates have no readable artifact.
pub open spec fn no_artifact_message() -> Seq<char> {
    "Cargo build JSON was provided, but no analyzable executable/library artifact was found. Supply --elf or enable --allow-target-dir-fallback."@
}

/// The start of the error when several candidates match.
pub open spec fn ambiguous_prefix() -> Seq<char> {
    "Multiple Rust artifacts matched. Re-run with --cargo-target-name <name> or --cargo-package <name>.\n"@
}

/// The candidate chosen when no artifact is named: none when no candidate
/// passes the filters, the only readable one, or an error.
pub open spec fn resolution_without_explicit(cands: Seq<CandidateText>, i: RustInputs) -> Result<Option<CandidateText>, Seq<char>> {
    let f = selected_candidates(cands, i);
    if f.len() == 0 {
        Ok(None)
    } else {
        let a = analyzable_candidates(f);
        if a.len() == 1 {
            Ok(Some(a[0]))
        } else if a.len() == 0 {
            Err(no_artifact_message())
        } else {
            Err(ambiguous_prefix() + join(a.map_values(|c: CandidateText| describe_text(c)), seq!['\n']))
        }
    }
}

/// How a candidate is listed when several match.
pub fn describe_candidate(c: &RustArtifactCandidate) -> (r: Vec<char>)
    ensures
        r@ == describe_text(c@),
{
    let mut v: Vec<char> = Vec::new();
    push_str_chars(&mut v, "  - package=");
    let name = package_name_from_id(c.package_id.as_str()).unwrap();
    push_str_chars(&mut v, name.as_str());
    push_str_chars(&mut v, " target=");
    push_str_chars(&mut v, c.target_name.as_str());
    push_str_chars(&mut v, " kind=");
    let mut kinds: Vec<Vec<char>> = Vec::new();
    let mut i: usize = 0;
    while i < c.target_kind.len()
        invariant
            0 <= i <= c.target_kind.len(),
            views(kinds@) == strs_view(c.target_kind@).take(i as int),
        decreases c.target_kind.len() - i,
    {
        let ghost before = kinds@;
        let k = chars_of(c.target_kind[i].as_str());
        let ghost kv = k@;
        kinds.push(k);
        assert(views(kinds@) =~= views(before).push(kv));
        assert(strs_view(c.target_kind@).take(i + 1) =~= strs_view(c.target_kind@).take(i as int).push(
            c.target_kind@[i as int]@,
        ));
        i += 1;
    }
    assert(strs_view(c.target_kind@).take(c.target_kind.len() as int) =~= strs_view(c.target_kind@));
    let comma: Vec<char> = vec![','];
    assert(comma@ =~= ","@) by {
        reveal_strlit(",");
    }
    let joined = join_chars(&kinds, &comma);
    push_all(&mut v, &joined);
    push_str_chars(&mut v, " artifact=");
    match select_artifact_path(c) {
        Some(p) => push_str_chars(&mut v, p.as_str()),
        None => push_str_chars(&mut v, "<no analyzable artifact>"),
    }
    v
}

/// Chooses the candidate to analyse when no artifact is named on the command line.
pub fn resolve_candidate_without_explicit(
    candidates: &Vec<RustArtifactCandidate>,
    inputs: &RustInputs,
) -> (r: Result<Option<RustArtifactCandidate>, String>)
    ensures
        match r {
            Ok(Some(c)) => resolution_without_explicit(cand_texts(candidates@), *inputs) == Ok::<
                Option<CandidateText>,
                Seq<char>,
            >(Some(c@)),
            Ok(None) => resolution_without_explicit(cand_texts(candidates@), *inputs) == Ok::<
                Option<CandidateText>,
                Seq<char>,
            >(None),
            Err(e) => resolution_without_explicit(cand_texts(candidates@), *inputs) == Err::<
                Option<CandidateText>,
                Seq<char>,
            >(e@),
        },
{
    let filtered = filter_candidates(candidates, inputs);
    if filtered.len() == 0 {
        return Ok(None);
    }
    let ghost f = cand_texts(filtered@);
    let mut analyzable: Vec<RustArtifactCandidate> = Vec::new();
    let mut parts: Vec<Vec<char>> = Vec::new();
    let mut i: usize = 0;
    assert(f.take(0) =~= Seq::<CandidateText>::empty());
    while i < filtered.len()
        invariant
            0 <= i <= filtered.len(),
            f == cand_texts(filtered@),
            cand_texts(analyzable@) == analyzable_candidates(f.take(i as int)),
            views(parts@) == analyzable_candidates(f.take(i as int)).map_values(
                |c: CandidateText| describe_text(c),
            ),
        decreases filtered.len() - i,
    {
        assert(f.take(i + 1).drop_last() =~= f.take(i as int));
        assert(f.take(i + 1).last() == filtered@[i as int]@);
        if select_artifact_path(&filtered[i]).is_some() {
            let ghost before = analyzable@;
            let ghost before_parts = parts@;
            analyzable.push(copy_candidate(&filtered[i]));
            let d = describe_candidate(&filtered[i]);
            let ghost dv = d@;
            parts.push(d);
            assert(cand_texts(analyzable@) =~= cand_texts(before).push(filtered@[i as int]@));
            assert(views(parts@) =~= views(before_parts).push(dv));
        }
        i += 1;
    }
    assert(f.take(filtered.len() as int) =~= f);
    if analyzable.len() == 1 {
        return Ok(Some(copy_candidate(&analyzable[0])));
    }
    if analyzable.len() == 0 {
        return Err(
            "Cargo build JSON was provided, but no analyzable executable/library artifact was found. Supply --elf or enable --allow-target-dir-fallback."
                .to_owned(),
        );
    }
    let mut msg: Vec<char> = Vec::new();
    push_str_chars(
        &mut msg,
        "Multiple Rust artifacts matched. Re-run with --cargo-target-name <name> or --cargo-package <name>.\n",
    );
    let newline: Vec<char> = vec!['\n'];
    assert(newline@ =~= seq!['\n']);
    let joined = join_chars(&parts, &newline);
    push_all(&mut msg, &joined);
    Err(string_of(&msg))
}

// ---------------------------------------------------------------------------
// Cargo build messages
// ---------------------------------------------------------------------------
/// The target a build message reports.
#[derive(Debug, Clone, PartialEq, Eq)]
pub struct CargoBuildTarget {
    pub name: String,
    pub kind: Vec<String>,
    pub crate_types: Vec<String>,
}

/// The profile a build message reports.
#[derive(Debug, Clone, PartialEq, Eq)]
pub struct CargoArtifactProfile {
    pub opt_level: String,
    pub test: bool,
}

/// One message of `cargo build --message-format=json`.
#[derive(Debug, Clone, PartialEq, Eq)]
pub struct CargoBuildMessage {
    pub reason: String,
    pub package_id: Option<String>,
    pub target: Option<CargoBuildTarget>,
    pub executable: Option<String>,
    pub filenames: Vec<String>,
    pub profile: Option<CargoArtifactProfile>,
    pub fresh: Option<bool>,
}

/// The name of a build profile: `test` for tests, `release` when optimised, else `debug`.
pub open spec fn profile_name_text(opt_level: Seq<char>, test: bool) -> Seq<char> {
    if test {
        "test"@
    } else if opt_level != "0"@ {
        "release"@
    } else {
        "debug"@
    }
}

/// The name of a build profile.
pub fn profile_name(opt_level: &str, test: bool) -> (r: String)
    ensures
        r@ == profile_name_text(opt_level@, test),
{
    if test {
        "test".to_owned()
    } else if !str_eq(opt_level, "0") {
        "release".to_owned()
    } else {
        "debug".to_owned()
    }
}

/// The target triple a path shows: the component after a `target`
/// component, when it holds a dash.
pub open spec fn triple_in_parts(parts: Seq<Seq<char>>) -> Option<Seq<char>>
    decreases parts.len(),
{
    if parts.len() < 2 {
        None
    } else if parts[0] == "target"@ && has_char(parts[1], '-') {
        Some(parts[1])
    } else {
        triple_in_parts(parts.drop_first())
    }
}

/// The target triple the first path that shows one shows.
pub open spec fn triple_in_paths(paths: Seq<Seq<char>>) -> Option<Seq<char>>
    decreases paths.len(),
{
    if paths.len() == 0 {
        None
    } else {
        match triple_in_parts(split_all(normalized_path(paths[0]), seq!['/'])) {
            Some(t) => Some(t),
            None => triple_in_paths(paths.drop_first()),
        }
    }
}

fn triple_in_path(path: &str) -> (r: Option<String>)
    ensures
        opt_text(r) == triple_in_parts(split_all(normalized_path(path@), seq!['/'])),
{
    let n = normalize_path_string(path);
    let v = chars_of(n.as_str());
    let sep: Vec<char> = vec!['/'];
    assert(sep@ =~= seq!['/']);
    let parts = chars_split_all(&v, &sep);
    let ghost ps = views(parts@);
    let target: Vec<char> = chars_of("target");
    if parts.len() < 2 {
        return None;
    }
    let mut i: usize = 0;
    assert(ps.skip(0) =~= ps);
    while i + 1 < parts.len()
        invariant
            0 <= i < parts.len(),
            ps == views(parts@),
            ps == split_all(normalized_path(path@), seq!['/']),
            target@ == "target"@,
            triple_in_parts(ps) == triple_in_parts(ps.skip(i as int)),
        decreases parts.len() - i,
    {
        assert(ps.skip(i as int)[0] == parts@[i as int]@);
        assert(ps.skip(i as int)[1] == parts@[i + 1]@);
        assert(ps.skip(i as int).drop_first() =~= ps.skip(i + 1));
        if chars_eq(&parts[i], &target) && chars_has(&parts[i + 1], '-') {
            return Some(string_of(&parts[i + 1]));
        }
        i += 1;
    }
    assert(ps.skip(i as int).len() < 2);
    None
}

/// The target triple a build message's paths show.
pub fn infer_target_triple(executable: &Option<String>, filenames: &Vec<String>) -> (r: Option<String>)
    ensures
        opt_text(r) == triple_in_paths(
            match executable {
                Some(e) => seq![e@],
                None => Seq::empty(),
            } + strs_view(filenames@),
        ),
{
    let ghost all = match executable {
        Some(e) => seq![e@],
        None => Seq::<Seq<char>>::empty(),
    } + strs_view(filenames@);
    let mut offset: usize = 0;
    if let Some(e) = executable {
        assert(all[0] == e@);
        let t = triple_in_path(e.as_str());
        if t.is_some() {
            return t;
        }
        offset = 1;
        assert(all.drop_first() =~= strs_view(filenames@));
    } else {
        assert(all =~= strs_view(filenames@));
    }
    let mut i: usize = 0;
    assert(strs_view(filenames@).skip(0) =~= strs_view(filenames@));
    while i < filenames.len()
        invariant
            0 <= i <= filenames.len(),
            all == match executable {
                Some(e) => seq![e@],
                None => Seq::<Seq<char>>::empty(),
            } + strs_view(filenames@),
            triple_in_paths(all) == triple_in_paths(strs_view(filenames@).skip(i as int)),
        decreases filenames.len() - i,
    {
        let ghost rest = strs_view(filenames@).skip(i as int);
        assert(rest[0] == filenames@[i as int]@);
        assert(rest.drop_first() =~= strs_view(filenames@).skip(i + 1));
        let t = triple_in_path(filenames[i].as_str());
        if t.is_some() {
            assert(triple_in_paths(rest) == opt_text(t));
            return t;
        }
        i += 1;
    }
    None
}

/// The key under which build messages of one artifact are merged.
pub open spec fn dedup_key_text(c: CandidateText) -> Seq<char> {
    c.0 + "|"@ + c.1 + "|"@ + join(c.2, ","@) + "|"@ + match c.6 {
        Some(e) => normalized_path(e),
        None => Seq::empty(),
    }
}

/// The candidates with later ones of an already seen key dropped.
pub open spec fn deduped(s: Seq<CandidateText>) -> Seq<CandidateText>
    decreases s.len(),
{
    if s.len() == 0 {
        s
    } else if exists|k: int| 0 <= k < s.len() - 1 && dedup_key_text(#[trigger] s[k]) == dedup_key_text(s.last()) {
        deduped(s.drop_last())
    } else {
        deduped(s.drop_last()).push(s.last())
    }
}

fn join_strings(v: &Vec<String>, sep: &str) -> (r: Vec<char>)
    ensures
        r@ == join(strs_view(v@), sep@),
{
    let mut parts: Vec<Vec<char>> = Vec::new();
    let mut i: usize = 0;
    while i < v.len()
        invariant
            0 <= i <= v.len(),
            views(parts@) == strs_view(v@).take(i as int),
        decreases v.len() - i,
    {
        let ghost before = parts@;
        let k = chars_of(v[i].as_str());
        let ghost kv = k@;
        parts.push(k);
        assert(views(parts@) =~= views(before).push(kv));
        assert(strs_view(v@).take(i + 1) =~= strs_view(v@).take(i as int).push(v@[i as int]@));
        i += 1;
    }
    assert(strs_view(v@).take(v.len() as int) =~= strs_view(v@));
    let s = chars_of(sep);
    join_chars(&parts, &s)
}

fn dedup_key(c: &RustArtifactCandidate) -> (r: Vec<char>)
    ensures
        r@ == dedup_key_text(c@),
{
    let mut v: Vec<char> = Vec::new();
    push_str_chars(&mut v, c.package_id.as_str());
    push_str_chars(&mut v, "|");
    push_str_chars(&mut v, c.target_name.as_str());
    push_str_chars(&mut v, "|");
    let k = join_strings(&c.target_kind, ",");
    push_all(&mut v, &k);
    push_str_chars(&mut v, "|");
    if let Some(e) = &c.executable {
        let n = normalize_path_string(e.as_str());
        push_str_chars(&mut v, n.as_str());
    }
    v
}

/// Drops the candidates whose key an earlier one already has.
pub fn dedup_candidates(items: Vec<RustArtifactCandidate>) -> (out: Vec<RustArtifactCandidate>)
    ensures
        cand_texts(out@) == deduped(cand_texts(items@)),
{
    let ghost all = cand_texts(items@);
    let mut seen: Vec<Vec<char>> = Vec::new();
    let mut out: Vec<RustArtifactCandidate> = Vec::new();
    let mut i: usize = 0;
    assert(all.take(0) =~= Seq::<CandidateText>::empty());
    while i < items.len()
        invariant
            0 <= i <= items.len(),
            all == cand_texts(items@),
            seen@.len() == i,
            forall|k: int| 0 <= k < i ==> (#[trigger] seen@[k])@ == dedup_key_text(all[k]),
            cand_texts(out@) == deduped(all.take(i as int)),
        decreases items.len() - i,
    {
        let key = dedup_key(&items[i]);
        let mut j: usize = 0;
        let mut dup = false;
        while j < seen.len()
            invariant
                0 <= j <= seen.len(),
                seen@.len() == i,
                i < items.len(),
                all == cand_texts(items@),
                key@ == dedup_key_text(all[i as int]),
                forall|k: int| 0 <= k < i ==> (#[trigger] seen@[k])@ == dedup_key_text(all[k]),
                dup == exists|k: int| 0 <= k < j && dedup_key_text(#[trigger] all[k]) == key@,
            decreases seen.len() - j,
        {
            if chars_eq(&seen[j], &key) {
                assert(dedup_key_text(all[j as int]) == key@);
                dup = true;
            }
            j += 1;
        }
        let ghost t = all.take(i + 1);
        assert(t.drop_last() =~= all.take(i as int));
        assert(t.last() == all[i as int]);
        assert(dup == exists|k: int| 0 <= k < t.len() - 1 && dedup_key_text(#[trigger] t[k]) == dedup_key_text(t.last())) by {
            if dup {
                let k = choose|k: int| 0 <= k < i && dedup_key_text(#[trigger] all[k]) == key@;
                assert(t[k] == all[k]);
            }
            if exists|k: int| 0 <= k < t.len() - 1 && dedup_key_text(#[trigger] t[k]) == dedup_key_text(t.last()) {
                let k = choose|k: int| 0 <= k < t.len() - 1 && dedup_key_text(#[trigger] t[k]) == dedup_key_text(t.last());
                assert(t[k] == all[k]);
            }
        }
        if !dup {
            let ghost before = out@;
            out.push(copy_candidate(&items[i]));
            assert(cand_texts(out@) =~= cand_texts(before).push(all[i as int]));
        }
        seen.push(key);
        i += 1;
    }
    assert(all.take(items.len() as int) =~= all);
    out
}

/// The trimmed, non-blank lines of a text with their (zero-based) numbers.
pub open spec fn content_lines(lines: Seq<Seq<char>>) -> Seq<(int, Seq<char>)>
    decreases lines.len(),
{
    if lines.len() == 0 {
        Seq::empty()
    } else {
        let rest = content_lines(lines.drop_last());
        let t = trim(lines.last());
        if t.len() == 0 {
            rest
        } else {
            rest.push(((lines.len() - 1) as int, t))
        }
    }
}

/// Numbered lines as numbers and texts.
pub open spec fn numbered_view(v: Seq<(usize, String)>) -> Seq<(int, Seq<char>)> {
    v.map_values(|x: (usize, String)| (x.0 as int, x.1@))
}

/// The trimmed, non-blank lines of `raw`, each with its zero-based number.
pub fn message_lines(raw: &str) -> (out: Vec<(usize, String)>)
    ensures
        numbered_view(out@) == content_lines(split_all(raw@, seq!['\n'])),
{
    let v = chars_of(raw);
    let nl: Vec<char> = vec!['\n'];
    assert(nl@ =~= seq!['\n']);
    let lines = chars_split_all(&v, &nl);
    let ghost ls = views(lines@);
    let mut out: Vec<(usize, String)> = Vec::new();
    let mut i: usize = 0;
    assert(ls.take(0) =~= Seq::<Seq<char>>::empty());
    while i < lines.len()
        invariant
            0 <= i <= lines.len(),
            ls == views(lines@),
            ls == split_all(raw@, seq!['\n']),
            numbered_view(out@) == content_lines(ls.take(i as int)),
        decreases lines.len() - i,
    {
        assert(ls.take(i + 1).drop_last() =~= ls.take(i as int));
        assert(ls.take(i + 1).last() == lines@[i as int]@);
        let t = chars_trim(&lines[i]);
        if t.len() > 0 {
            let ghost before = out@;
            let ghost tv = t@;
            out.push((i, string_of(&t)));
            assert(numbered_view(out@) =~= numbered_view(before).push((i as int, tv)));
        }
        i += 1;
    }
    assert(ls.take(lines.len() as int) =~= ls);
    out
}

/// The paths a build message reports, executable first.
pub open spec fn message_paths(m: CargoBuildMessage) -> Seq<Seq<char>> {
    let head: Seq<Seq<char>> = match m.executable {
        Some(e) => seq![e@],
        None => Seq::empty(),
    };
    head + strs_view(m.filenames@)
}

/// The candidate a compiler-artifact message describes.
pub open spec fn message_candidate(m: CargoBuildMessage) -> CandidateText {
    (
        m.package_id->0@,
        m.target->0.name@,
        strs_view(m.target->0.kind@),
        strs_view(m.target->0.crate_types@),
        match m.profile {
            Some(p) => Some(profile_name_text(p.opt_level@, p.test)),
            None => None,
        },
        triple_in_paths(message_paths(m)),
        opt_text(m.executable),
        strs_view(m.filenames@),
        match m.fresh {
            Some(b) => b,
            None => false,
        },
    )
}

/// The candidates of the compiler-artifact messages, in order, or the error
/// of the first such message that lacks its package id or target.  Lines that
/// did not parse are skipped.
pub open spec fn messages_outcome(msgs: Seq<(usize, Option<CargoBuildMessage>)>) -> Result<Seq<CandidateText>, Seq<char>>
    decreases msgs.len(),
{
    if msgs.len() == 0 {
        Ok(Seq::empty())
    } else {
        match messages_outcome(msgs.drop_last()) {
            Err(e) => Err(e),
            Ok(cs) => {
                let n = msgs.last().0;
                match msgs.last().1 {
                    None => Ok(cs),
                    Some(m) => if m.reason@ != "compiler-artifact"@ {
                        Ok(cs)
                    } else if m.package_id is None {
                        Err("cargo build JSON line "@ + dec((n + 1) as nat) + " is missing package_id"@)
                    } else if m.target is None {
                        Err("cargo build JSON line "@ + dec((n + 1) as nat) + " is missing target"@)
                    } else {
                        Ok(cs.push(message_candidate(m)))
                    },
                }
            },
        }
    }
}

proof fn lemma_outcome_error_stays(msgs: Seq<(usize, Option<CargoBuildMessage>)>, i: int)
    requires
        0 <= i <= msgs.len(),
        messages_outcome(msgs.take(i)) is Err,
    ensures
        messages_outcome(msgs) == messages_outcome(msgs.take(i)),
    decreases msgs.len(),
{
    if i == msgs.len() {
        assert(msgs.take(i) =~= msgs);
    } else {
        assert(msgs.drop_last().take(i) =~= msgs.take(i));
        lemma_outcome_error_stays(msgs.drop_last(), i);
    }
}

fn candidate_from_message(m: &CargoBuildMessage) -> (c: RustArtifactCandidate)
    requires
        m.package_id is Some,
        m.target is Some,
    ensures
        c@ == message_candidate(*m),
{
    let target = m.target.as_ref().unwrap();
    let profile = match &m.profile {
        Some(p) => Some(profile_name(p.opt_level.as_str(), p.test)),
        None => None,
    };
    let triple = infer_target_triple(&m.executable, &m.filenames);
    RustArtifactCandidate {
        package_id: copy_string(m.package_id.as_ref().unwrap()),
        target_name: copy_string(&target.name),
        target_kind: copy_strings(&target.kind),
        crate_types: copy_strings(&target.crate_types),
        profile,
        target_triple: triple,
        executable: copy_opt_string(&m.executable),
        filenames: copy_strings(&m.filenames),
        fresh: match m.fresh {
            Some(b) => b,
            None => false,
        },
    }
}

fn line_error(n: usize, what: &str) -> (r: String)
    requires
        n < usize::MAX,
    ensures
        r@ == "cargo build JSON line "@ + dec((n + 1) as nat) + what@,
{
    let mut v: Vec<char> = Vec::new();
    push_str_chars(&mut v, "cargo build JSON line ");
    push_dec(&mut v, (n + 1) as u64);
    push_str_chars(&mut v, what);
    string_of(&v)
}

/// The artifacts that numbered build messages report (`None` for a line that
/// did not parse), with repeated artifacts dropped.
pub fn candidates_from_messages(msgs: &Vec<(usize, Option<CargoBuildMessage>)>) -> (r: Result<Vec<RustArtifactCandidate>, String>)
    requires
        forall|k: int| 0 <= k < msgs@.len() ==> (#[trigger] msgs@[k]).0 < usize::MAX,
    ensures
        match r {
            Ok(v) => messages_outcome(msgs@) is Ok && cand_texts(v@) == deduped(messages_outcome(msgs@)->Ok_0),
            Err(e) => messages_outcome(msgs@) == Err::<Seq<CandidateText>, Seq<char>>(e@),
        },
{
    let mut out: Vec<RustArtifactCandidate> = Vec::new();
    let mut i: usize = 0;
    assert(msgs@.take(0) =~= Seq::<(usize, Option<CargoBuildMessage>)>::empty());
    assert(cand_texts(out@) =~= Seq::<CandidateText>::empty());
    while i < msgs.len()
        invariant
            0 <= i <= msgs.len(),
            forall|k: int| 0 <= k < msgs@.len() ==> (#[trigger] msgs@[k]).0 < usize::MAX,
            messages_outcome(msgs@.take(i as int)) == Ok::<Seq<CandidateText>, Seq<char>>(cand_texts(out@)),
        decreases msgs.len() - i,
    {
        assert(msgs@.take(i + 1).drop_last() =~= msgs@.take(i as int));
        assert(msgs@.take(i + 1).last() == msgs@[i as int]);
        let n = msgs[i].0;
        if let Some(m) = &msgs[i].1 {
            if str_eq(m.reason.as_str(), "compiler-artifact") {
                if m.package_id.is_none() {
                    let e = line_error(n, " is missing package_id");
                    proof {
                        lemma_outcome_error_stays(msgs@, i + 1);
                    }
                    return Err(e);
                }
                if m.target.is_none() {
                    let e = line_error(n, " is missing target");
                    proof {
                        lemma_outcome_error_stays(msgs@, i + 1);
                    }
                    return Err(e);
                }
                let ghost before = out@;
                out.push(candidate_from_message(m));
                assert(cand_texts(out@) =~= cand_texts(before).push(message_candidate(*m)));
            }
        }
        i += 1;
    }
    assert(msgs@.take(msgs.len() as int) =~= msgs@);
    Ok(dedup_candidates(out))
}

// ---------------------------------------------------------------------------
// Cargo metadata and the Rust context
// ---------------------------------------------------------------------------
/// Cargo metadata with the slashes of its paths normalized.
pub fn normalize_metadata(m: CargoMetadata) -> (r: CargoMetadata)
    ensures
        r.workspace_root@ == normalized_path(m.workspace_root@),
        r.target_directory@ == normalized_path(m.target_directory@),
        r.workspace_members == m.workspace_members,
        r.packages@.len() == m.packages@.len(),
        forall|k: int|
            0 <= k < r.packages@.len() ==> {
                &&& (#[trigger] r.packages@[k]).manifest_path@ == normalized_path(m.packages@[k].manifest_path@)
                &&& r.packages@[k].id == m.packages@[k].id
                &&& r.packages@[k].name == m.packages@[k].name
                &&& r.packages@[k].edition == m.packages@[k].edition
                &&& r.packages@[k].targets == m.packages@[k].targets
            },
{
    let ghost orig = m.packages@;
    let CargoMetadata { workspace_root, target_directory, workspace_members, packages } = m;
    let mut rest = packages;
    let mut out: Vec<CargoPackage> = Vec::new();
    let ghost mut done: int = 0;
    while rest.len() > 0
        invariant
            0 <= done <= orig.len(),
            rest@ == orig.skip(done),
            out@.len() == done,
            forall|k: int|
                0 <= k < done ==> {
                    &&& (#[trigger] out@[k]).manifest_path@ == normalized_path(orig[k].manifest_path@)
                    &&& out@[k].id == orig[k].id
                    &&& out@[k].name == orig[k].name
                    &&& out@[k].edition == orig[k].edition
                    &&& out@[k].targets == orig[k].targets
                },
        decreases rest.len(),
    {
        let p = rest.remove(0);
        assert(p == orig[done]);
        let CargoPackage { id, name, manifest_path, edition, targets } = p;
        out.push(
            CargoPackage {
                id,
                name,
                manifest_path: normalize_path_string(manifest_path.as_str()),
                edition,
                targets,
            },
        );
        proof {
            assert(rest@ =~= orig.skip(done + 1));
            done = done + 1;
        }
    }
    CargoMetadata {
        workspace_root: normalize_path_string(workspace_root.as_str()),
        target_directory: normalize_path_string(target_directory.as_str()),
        workspace_members,
        packages: out,
    }
}

/// The package a run's context comes from: the one the inputs name (by id or
/// name), else the candidate's, else the only package.
pub open spec fn package_for(m: Option<CargoMetadata>, c: Option<CandidateText>, i: RustInputs) -> Option<CargoPackage> {
    match m {
        None => None,
        Some(md) => {
            let by_input = match i.cargo_package {
                Some(v) => first_match(md.packages@, |p: CargoPackage| p.id@ == v@ || p.name@ == v@),
                None => None,
            };
            if by_input is Some {
                by_input
            } else {
                let by_candidate = match c {
                    Some(ct) => first_match(md.packages@, |p: CargoPackage| p.id@ == ct.0),
                    None => None,
                };
                if by_candidate is Some {
                    by_candidate
                } else if md.packages@.len() == 1 {
                    Some(md.packages@[0])
                } else {
                    None
                }
            }
        },
    }
}

/// The target a run's context comes from: the one the inputs name, else the
/// candidate's, else the package's only target.
pub open spec fn target_for(p: Option<CargoPackage>, c: Option<CandidateText>, i: RustInputs) -> Option<CargoTarget> {
    match p {
        None => None,
        Some(pk) => {
            let by_input = match i.cargo_target_name {
                Some(v) => first_match(pk.targets@, |t: CargoTarget| t.name@ == v@),
                None => None,
            };
            if by_input is Some {
                by_input
            } else {
                let by_candidate = match c {
                    Some(ct) => first_match(pk.targets@, |t: CargoTarget| t.name@ == ct.1),
                    None => None,
                };
                if by_candidate is Some {
                    by_candidate
                } else if pk.targets@.len() == 1 {
                    Some(pk.targets@[0])
                } else {
                    None
                }
            }
        },
    }
}

fn find_package_by<'a>(packages: &'a Vec<CargoPackage>, key: &str, by_name_too: bool) -> (r: Option<&'a CargoPackage>)
    ensures
        by_name_too ==> deref_opt(r) == first_match(packages@, |p: CargoPackage| p.id@ == key@ || p.name@ == key@),
        !by_name_too ==> deref_opt(r) == first_match(packages@, |p: CargoPackage| p.id@ == key@),
{
    let ghost pred = if by_name_too {
        |p: CargoPackage| p.id@ == key@ || p.name@ == key@
    } else {
        |p: CargoPackage| p.id@ == key@
    };
    let mut i: usize = 0;
    while i < packages.len()
        invariant
            0 <= i <= packages.len(),
            pred == (if by_name_too {
                |p: CargoPackage| p.id@ == key@ || p.name@ == key@
            } else {
                |p: CargoPackage| p.id@ == key@
            }),
            forall|k: int| 0 <= k < i ==> !pred(#[trigger] packages@[k]),
        decreases packages.len() - i,
    {
        let p = &packages[i];
        let hit = str_eq(p.id.as_str(), key) || (by_name_too && str_eq(p.name.as_str(), key));
        if hit {
            assert(pred(packages@[i as int]));
            proof {
                lemma_first_match_found(packages@, pred, i as int);
            }
            return Some(p);
        }
        assert(!pred(packages@[i as int]));
        i += 1;
    }
    proof {
        lemma_first_match_none(packages@, pred);
    }
    None
}

fn find_target_named<'a>(targets: &'a Vec<CargoTarget>, name: &str) -> (r: Option<&'a CargoTarget>)
    ensures
        deref_opt(r) == first_match(targets@, |t: CargoTarget| t.name@ == name@),
{
    let ghost pred = |t: CargoTarget| t.name@ == name@;
    let mut i: usize = 0;
    while i < targets.len()
        invariant
            0 <= i <= targets.len(),
            pred == (|t: CargoTarget| t.name@ == name@),
            forall|k: int| 0 <= k < i ==> !pred(#[trigger] targets@[k]),
        decreases targets.len() - i,
    {
        if str_eq(targets[i].name.as_str(), name) {
            assert(pred(targets@[i as int]));
            proof {
                lemma_first_match_found(targets@, pred, i as int);
            }
            return Some(&targets[i]);
        }
        assert(!pred(targets@[i as int]));
        i += 1;
    }
    proof {
        lemma_first_match_none(targets@, pred);
    }
    None
}

/// The value an optional reference points to.
pub open spec fn deref_opt<T>(o: Option<&T>) -> Option<T> {
    match o {
        Some(x) => Some(*x),
        None => None,
    }
}

/// The text of an optional candidate.
pub open spec fn opt_cand(c: Option<&RustArtifactCandidate>) -> Option<CandidateText> {
    match c {
        Some(x) => Some(x@),
        None => None,
    }
}

/// Finds the package a run's context comes from.
pub fn find_package<'a>(
    metadata: Option<&'a CargoMetadata>,
    candidate: Option<&RustArtifactCandidate>,
    inputs: &RustInputs,
) -> (r: Option<&'a CargoPackage>)
    ensures
        deref_opt(r) == package_for(
            deref_opt(metadata),
            opt_cand(candidate),
            *inputs,
        ),
{
    let md = match metadata {
        Some(m) => m,
        None => return None,
    };
    if let Some(v) = &inputs.cargo_package {
        let found = find_package_by(&md.packages, v.as_str(), true);
        if found.is_some() {
            return found;
        }
    }
    if let Some(c) = candidate {
        let found = find_package_by(&md.packages, c.package_id.as_str(), false);
        if found.is_some() {
            return found;
        }
    }
    if md.packages.len() == 1 {
        return Some(&md.packages[0]);
    }
    None
}

/// Finds the target a run's context comes from.
pub fn find_target<'a>(
    package: Option<&'a CargoPackage>,
    candidate: Option<&RustArtifactCandidate>,
    inputs: &RustInputs,
) -> (r: Option<&'a CargoTarget>)
    ensures
        deref_opt(r) == target_for(
            deref_opt(package),
            opt_cand(candidate),
            *inputs,
        ),
{
    let pk = match package {
        Some(p) => p,
        None => return None,
    };
    if let Some(v) = &inputs.cargo_target_name {
        let found = find_target_named(&pk.targets, v.as_str());
        if found.is_some() {
            return found;
        }
    }
    if let Some(c) = candidate {
        let found = find_target_named(&pk.targets, c.target_name.as_str());
        if found.is_some() {
            return found;
        }
    }
    if pk.targets.len() == 1 {
        return Some(&pk.targets[0]);
    }
    None
}

/// Where a run's Rust context comes from.
pub open spec fn metadata_source_text(i: RustInputs, used_fallback: bool) -> Seq<char> {
    if used_fallback {
        "cargo-target-dir-fallback"@
    } else if i.cargo_build_json is Some {
        "cargo-build-json"@
    } else if i.cargo_metadata is Some {
        "cargo-metadata-file"@
    } else if i.cargo_workspace is Some {
        "cargo-metadata-command"@
    } else if i.allow_target_dir_fallback {
        "cargo-target-dir-fallback"@
    } else {
        "explicit-elf"@
    }
}

/// The Rust context of a run, from the metadata, the chosen candidate, the
/// artifact and the inputs: each field from the package or target when it is
/// known, else from the candidate.
pub open spec fn context_is(
    ctx: RustContext,
    m: Option<CargoMetadata>,
    c: Option<CandidateText>,
    a: Option<Seq<char>>,
    i: RustInputs,
    used_fallback: bool,
) -> bool {
    let pkg = package_for(m, c, i);
    let tgt = target_for(pkg, c, i);
    &&& opt_text(ctx.workspace_root) == match m {
        Some(md) => Some(md.workspace_root@),
        None => None,
    }
    &&& opt_text(ctx.manifest_path) == match pkg {
        Some(p) => Some(p.manifest_path@),
        None => None,
    }
    &&& opt_text(ctx.package_name) == match pkg {
        Some(p) => Some(p.name@),
        None => match c {
            Some(ct) => Some(package_name_of(ct.0)),
            None => None,
        },
    }
    &&& opt_text(ctx.package_id) == match pkg {
        Some(p) => Some(p.id@),
        None => match c {
            Some(ct) => Some(ct.0),
            None => None,
        },
    }
    &&& opt_text(ctx.target_name) == match tgt {
        Some(t) => Some(t.name@),
        None => match c {
            Some(ct) => Some(ct.1),
            None => None,
        },
    }
    &&& strs_view(ctx.target_kind@) == match tgt {
        Some(t) => strs_view(t.kind@),
        None => match c {
            Some(ct) => ct.2,
            None => Seq::empty(),
        },
    }
    &&& strs_view(ctx.crate_types@) == match tgt {
        Some(t) => strs_view(t.crate_types@),
        None => match c {
            Some(ct) => ct.3,
            None => Seq::empty(),
        },
    }
    &&& opt_text(ctx.edition) == match tgt {
        Some(t) if t.edition is Some => opt_text(t.edition),
        _ => match pkg {
            Some(p) => opt_text(p.edition),
            None => None,
        },
    }
    &&& opt_text(ctx.target_triple) == match i.cargo_target_triple {
        Some(t) => Some(t@),
        None => match c {
            Some(ct) => ct.5,
            None => None,
        },
    }
    &&& opt_text(ctx.profile) == match c {
        Some(ct) => ct.4,
        None => None,
    }
    &&& opt_text(ctx.artifact_path) == match a {
        Some(p) => Some(normalized_path(p)),
        None => None,
    }
    &&& ctx.metadata_source@ == metadata_source_text(i, used_fallback)
    &&& strs_view(ctx.workspace_members@) == match m {
        Some(md) => strs_view(md.workspace_members@).map_values(|t: Seq<char>| package_name_of(t)),
        None => Seq::empty(),
    }
}

/// The text of an optional string reference.
pub open spec fn opt_str(o: Option<&str>) -> Option<Seq<char>> {
    match o {
        Some(t) => Some(t@),
        None => None,
    }
}

/// Builds the Rust context of a run; there is none when nothing about Cargo is known.
pub fn build_rust_context(
    metadata: Option<&CargoMetadata>,
    candidate: Option<&RustArtifactCandidate>,
    artifact_path: Option<&str>,
    inputs: &RustInputs,
    used_fallback: bool,
) -> (r: Option<RustContext>)
    ensures
        r is None <==> (metadata is None && candidate is None && artifact_path is None && inputs.cargo_workspace is None),
        r is Some ==> context_is(
            r->0,
            deref_opt(metadata),
            opt_cand(candidate),
            opt_str(artifact_path),
            *inputs,
            used_fallback,
        ),
{
    if metadata.is_none() && candidate.is_none() && artifact_path.is_none() && inputs.cargo_workspace.is_none() {
        return None;
    }
    let package = find_package(metadata, candidate, inputs);
    let target = find_target(package, candidate, inputs);
    let source = if used_fallback {
        "cargo-target-dir-fallback"
    } else if inputs.cargo_build_json.is_some() {
        "cargo-build-json"
    } else if inputs.cargo_metadata.is_some() {
        "cargo-metadata-file"
    } else if inputs.cargo_workspace.is_some() {
        "cargo-metadata-command"
    } else if inputs.allow_target_dir_fallback {
        "cargo-target-dir-fallback"
    } else {
        "explicit-elf"
    };
    let mut members: Vec<String> = Vec::new();
    if let Some(md) = metadata {
        let mut k: usize = 0;
        while k < md.workspace_members.len()
            invariant
                0 <= k <= md.workspace_members.len(),
                strs_view(members@) == strs_view(md.workspace_members@).take(k as int).map_values(
                    |t: Seq<char>| package_name_of(t),
                ),
            decreases md.workspace_members.len() - k,
        {
            let ghost before = members@;
            let n = package_name_from_id(md.workspace_members[k].as_str()).unwrap();
            let ghost nv = n@;
            members.push(n);
            assert(strs_view(members@) =~= strs_view(before).push(nv));
            assert(strs_view(md.workspace_members@).take(k + 1) =~= strs_view(md.workspace_members@).take(
                k as int,
            ).push(md.workspace_members@[k as int]@));
            k += 1;
        }
        assert(strs_view(md.workspace_members@).take(md.workspace_members.len() as int) =~= strs_view(
            md.workspace_members@,
        ));
    } else {
        assert(strs_view(members@) =~= Seq::<Seq<char>>::empty());
    }
    let package_name = match package {
        Some(p) => Some(copy_string(&p.name)),
        None => match candidate {
            Some(c) => package_name_from_id(c.package_id.as_str()),
            None => None,
        },
    };
    let package_id = match package {
        Some(p) => Some(copy_string(&p.id)),
        None => match candidate {
            Some(c) => Some(copy_string(&c.package_id)),
            None => None,
        },
    };
    let target_name = match target {
        Some(t) => Some(copy_string(&t.name)),
        None => match candidate {
            Some(c) => Some(copy_string(&c.target_name)),
            None => None,
        },
    };
    let target_kind = match target {
        Some(t) => copy_strings(&t.kind),
        None => match candidate {
            Some(c) => copy_strings(&c.target_kind),
            None => Vec::new(),
        },
    };
    let crate_types = match target {
        Some(t) => copy_strings(&t.crate_types),
        None => match candidate {
            Some(c) => copy_strings(&c.crate_types),
            None => Vec::new(),
        },
    };
    let edition = match target {
        Some(t) if t.edition.is_some() => copy_opt_string(&t.edition),
        _ => match package {
            Some(p) => copy_opt_string(&p.edition),
            None => None,
        },
    };
    let target_triple = match &inputs.cargo_target_triple {
        Some(t) => Some(copy_string(t)),
        None => match candidate {
            Some(c) => copy_opt_string(&c.target_triple),
            None => None,
        },
    };
    let profile = match candidate {
        Some(c) => copy_opt_string(&c.profile),
        None => None,
    };
    let artifact = match artifact_path {
        Some(p) => Some(normalize_path_string(p)),
        None => None,
    };
    let ctx = RustContext {
        workspace_root: match metadata {
            Some(md) => Some(copy_string(&md.workspace_root)),
            None => None,
        },
        manifest_path: match package {
            Some(p) => Some(copy_string(&p.manifest_path)),
            None => None,
        },
        package_name,
        package_id,
        target_name,
        target_kind,
        crate_types,
        edition,
        target_triple,
        profile,
        artifact_path: artifact,
        metadata_source: source.to_owned(),
        workspace_members: members,
    };
    proof {
        let m = deref_opt(metadata);
        let c = opt_cand(candidate);
        let pkg = package_for(m, c, *inputs);
        let tgt = target_for(pkg, c, *inputs);
        assert(deref_opt(package) == pkg);
        assert(deref_opt(target) == tgt);
        assert(opt_text(ctx.workspace_root) == match m { Some(md) => Some(md.workspace_root@), None => None });
        assert(opt_text(ctx.manifest_path) == match pkg { Some(p) => Some(p.manifest_path@), None => None });
        assert(opt_text(ctx.package_name) == match pkg {
            Some(p) => Some(p.name@),
            None => match c { Some(ct) => Some(package_name_of(ct.0)), None => None },
        });
        assert(opt_text(ctx.target_name) == match tgt {
            Some(t) => Some(t.name@),
            None => match c { Some(ct) => Some(ct.1), None => None },
        });
        assert(strs_view(ctx.target_kind@) == match tgt {
            Some(t) => strs_view(t.kind@),
            None => match c { Some(ct) => ct.2, None => Seq::empty() },
        });
        assert(opt_text(ctx.edition) == match tgt {
            Some(t) if t.edition is Some => opt_text(t.edition),
            _ => match pkg { Some(p) => opt_text(p.edition), None => None },
        });
        assert(opt_text(ctx.target_triple) == match inputs.cargo_target_triple {
            Some(t) => Some(t@),
            None => match c { Some(ct) => ct.5, None => None },
        });
        assert(ctx.metadata_source@ == metadata_source_text(*inputs, used_fallback));
        assert(strs_view(ctx.workspace_members@) == match m {
            Some(md) => strs_view(md.workspace_members@).map_values(|t: Seq<char>| package_name_of(t)),
            None => Seq::empty(),
        });
    }
    Some(ctx)
}

// ---------------------------------------------------------------------------
// Searching the target directory
// ---------------------------------------------------------------------------
/// A path with its normalized form: (normalized, path).
pub type PathPair = (Seq<char>, Seq<char>);

/// Whether a file under the target directory may be the artifact: readable,
/// with the target name in its file name and the triple in its path when
/// those are asked for.
pub open spec fn fallback_matches(p: Seq<char>, i: RustInputs) -> bool {
    &&& analyzable_path(p)
    &&& match i.cargo_target_name {
        Some(n) => match file_name_of(p) {
            Some(f) => contains_seq(f, n@),
            None => false,
        },
        None => true,
    }
    &&& match i.cargo_target_triple {
        Some(t) => contains_seq(normalized_path(p), t@),
        None => true,
    }
}

/// The files that may be the artifact, in order, with their normalized forms.
pub open spec fn matching_pairs(files: Seq<Seq<char>>, i: RustInputs) -> Seq<PathPair>
    decreases files.len(),
{
    if files.len() == 0 {
        Seq::empty()
    } else if fallback_matches(files.last(), i) {
        matching_pairs(files.drop_last(), i).push((normalized_path(files.last()), files.last()))
    } else {
        matching_pairs(files.drop_last(), i)
    }
}

/// `cands[k]` is the first pair with its normalized form.
pub open spec fn pair_first(cands: Seq<PathPair>, k: int) -> bool {
    0 <= k < cands.len() && forall|m: int| 0 <= m < k ==> (#[trigger] cands[m]).0 != cands[k].0
}

/// `n` is the first pair with its normalized form.
pub open spec fn is_first_pair(cands: Seq<PathPair>, n: PathPair) -> bool {
    exists|k: int| #[trigger] pair_first(cands, k) && cands[k] == n
}

/// Some pair has the normalized form.
pub open spec fn has_norm(out: Seq<PathPair>, key: Seq<char>) -> bool {
    exists|i: int| 0 <= i < out.len() && (#[trigger] out[i]).0 == key
}

/// `out` holds, in decreasing order of normalized form, the first pair of
/// each normalized form among the candidates.
#[verifier::opaque]
pub open spec fn is_desc_set(out: Seq<PathPair>, cands: Seq<PathPair>) -> bool {
    &&& forall|i: int, j: int| 0 <= i < j < out.len() ==> lex_lt(#[trigger] out[j].0, #[trigger] out[i].0)
    &&& forall|i: int| 0 <= i < out.len() ==> is_first_pair(cands, #[trigger] out[i])
    &&& forall|k: int| 0 <= k < cands.len() ==> has_norm(out, (#[trigger] cands[k]).0)
}

proof fn lemma_first_pair_push(cands: Seq<PathPair>, x: PathPair, n: PathPair)
    requires
        is_first_pair(cands, n),
    ensures
        is_first_pair(cands.push(x), n),
{
    let c2 = cands.push(x);
    let k = choose|k: int| #[trigger] pair_first(cands, k) && cands[k] == n;
    assert(c2[k] == cands[k]);
    assert forall|m: int| 0 <= m < k implies (#[trigger] c2[m]).0 != c2[k].0 by {
        assert(c2[m] == cands[m]);
    }
    assert(pair_first(c2, k));
}

proof fn lemma_desc_set_keep(before: Seq<PathPair>, cands: Seq<PathPair>, x: PathPair, pos: int)
    requires
        is_desc_set(before, cands),
        0 <= pos < before.len(),
        before[pos].0 == x.0,
    ensures
        is_desc_set(before, cands.push(x)),
{
    reveal(is_desc_set);
    let c2 = cands.push(x);
    assert forall|i: int| 0 <= i < before.len() implies is_first_pair(c2, #[trigger] before[i]) by {
        lemma_first_pair_push(cands, x, before[i]);
    }
    assert forall|k: int| 0 <= k < c2.len() implies has_norm(before, (#[trigger] c2[k]).0) by {
        if k < cands.len() {
            assert(c2[k] == cands[k]);
        } else {
            assert(before[pos].0 == c2[k].0);
        }
    }
}

proof fn lemma_desc_set_insert(before: Seq<PathPair>, cands: Seq<PathPair>, x: PathPair, pos: int)
    requires
        is_desc_set(before, cands),
        0 <= pos <= before.len(),
        forall|i: int| 0 <= i < pos ==> lex_lt(x.0, #[trigger] before[i].0),
        pos == before.len() || lex_lt(before[pos].0, x.0),
    ensures
        is_desc_set(before.insert(pos, x), cands.push(x)),
{
    reveal(is_desc_set);
    let after = before.insert(pos, x);
    let c2 = cands.push(x);
    assert forall|i: int| 0 <= i < before.len() implies (#[trigger] before[i]).0 != x.0 by {
        lemma_lex_irreflexive(x.0);
        if i > pos {
            lemma_lex_transitive(before[i].0, before[pos].0, x.0);
        }
    }
    assert forall|i: int, j: int| 0 <= i < j < after.len() implies lex_lt(#[trigger] after[j].0, #[trigger] after[i].0) by {
        if j < pos {
            assert(after[i] == before[i] && after[j] == before[j]);
        } else if j == pos {
            assert(after[i] == before[i]);
        } else if i < pos {
            assert(after[i] == before[i] && after[j] == before[j - 1]);
            if j - 1 > pos {
                lemma_lex_transitive(before[j - 1].0, before[pos].0, x.0);
            }
            lemma_lex_transitive(before[j - 1].0, x.0, before[i].0);
        } else if i == pos {
            assert(after[j] == before[j - 1]);
            if j - 1 > pos {
                lemma_lex_transitive(before[j - 1].0, before[pos].0, x.0);
            }
        } else {
            assert(after[i] == before[i - 1] && after[j] == before[j - 1]);
        }
    }
    assert forall|i: int| 0 <= i < after.len() implies is_first_pair(c2, #[trigger] after[i]) by {
        if i == pos {
            let k = cands.len() as int;
            assert(c2[k] == x);
            assert forall|m: int| 0 <= m < k implies (#[trigger] c2[m]).0 != c2[k].0 by {
                assert(c2[m] == cands[m]);
                assert(has_norm(before, cands[m].0));
                let w = choose|w: int| 0 <= w < before.len() && (#[trigger] before[w]).0 == cands[m].0;
                assert(before[w].0 != x.0);
            }
            assert(pair_first(c2, k));
        } else {
            let b = if i < pos {
                i
            } else {
                i - 1
            };
            assert(after[i] == before[b]);
            lemma_first_pair_push(cands, x, before[b]);
        }
    }
    assert forall|k: int| 0 <= k < c2.len() implies has_norm(after, (#[trigger] c2[k]).0) by {
        if k < cands.len() {
            assert(c2[k] == cands[k]);
            assert(has_norm(before, cands[k].0));
            let w = choose|w: int| 0 <= w < before.len() && (#[trigger] before[w]).0 == cands[k].0;
            if w < pos {
                assert(after[w] == before[w]);
            } else {
                assert(after[w + 1] == before[w]);
            }
        } else {
            assert(after[pos] == x);
        }
    }
}

/// The texts of a list of path pairs.
pub open spec fn pair_texts(v: Seq<(String, String)>) -> Seq<PathPair> {
    v.map_values(|x: (String, String)| (x.0@, x.1@))
}

fn add_pair(out: &mut Vec<(String, String)>, x: (String, String), Ghost(cands): Ghost<Seq<PathPair>>)
    requires
        is_desc_set(pair_texts(old(out)@), cands),
    ensures
        is_desc_set(pair_texts(final(out)@), cands.push((x.0@, x.1@))),
{
    let ghost before = pair_texts(out@);
    let ghost xv = (x.0@, x.1@);
    let mut pos: usize = 0;
    while pos < out.len() && compare_strings(&out[pos].0, &x.0) == Precedence::After
        invariant
            0 <= pos <= out.len(),
            pair_texts(out@) == before,
            xv == (x.0@, x.1@),
            forall|i: int| 0 <= i < pos ==> lex_lt(xv.0, #[trigger] before[i].0),
        decreases out.len() - pos,
    {
        assert(before[pos as int] == (out@[pos as int].0@, out@[pos as int].1@));
        proof {
            lemma_lex_total(before[pos as int].0, xv.0);
        }
        pos += 1;
    }
    if pos < out.len() {
        assert(before[pos as int] == (out@[pos as int].0@, out@[pos as int].1@));
        let c = compare_strings(&out[pos].0, &x.0);
        if c == Precedence::Same {
            proof {
                lemma_desc_set_keep(before, cands, xv, pos as int);
            }
            return;
        }
    }
    proof {
        lemma_desc_set_insert(before, cands, xv, pos as int);
    }
    out.insert(pos, x);
    assert(pair_texts(out@) =~= before.insert(pos as int, xv));
}

/// The error when no file under the target directory may be the artifact.
pub open spec fn no_fallback_message() -> Seq<char> {
    "Rust fallback search is enabled, but no analyzable target artifact was found under Cargo target directories."@
}

/// The start of the error when several files may be the artifact.
pub open spec fn ambiguous_fallback_prefix() -> Seq<char> {
    "Multiple Rust artifacts matched fallback search. Re-run with --cargo-target-name <name> or --cargo-target-triple <triple>.\n"@
}

/// How a file is listed when several may be the artifact.
pub open spec fn listed_path(x: PathPair) -> Seq<char> {
    "  - "@ + x.1
}

proof fn lemma_desc_set_single(out: Seq<PathPair>, cands: Seq<PathPair>)
    requires
        is_desc_set(out, cands),
        cands.len() > 0,
    ensures
        (forall|k: int| 0 <= k < cands.len() ==> (#[trigger] cands[k]).0 == cands[0].0) <==> out.len() == 1,
        out.len() == 1 ==> out[0] == cands[0],
        out.len() >= 1,
{
    reveal(is_desc_set);
    assert(has_norm(out, cands[0].0));
    if forall|k: int| 0 <= k < cands.len() ==> (#[trigger] cands[k]).0 == cands[0].0 {
        if out.len() >= 2 {
            assert(is_first_pair(cands, out[0]));
            assert(is_first_pair(cands, out[1]));
            let k0 = choose|k: int| #[trigger] pair_first(cands, k) && cands[k] == out[0];
            let k1 = choose|k: int| #[trigger] pair_first(cands, k) && cands[k] == out[1];
            assert(cands[k0].0 == cands[0].0 && cands[k1].0 == cands[0].0);
            assert(lex_lt(out[1].0, out[0].0));
            lemma_lex_irreflexive(out[0].0);
        }
        assert(is_first_pair(cands, out[0]));
        let k0 = choose|k: int| #[trigger] pair_first(cands, k) && cands[k] == out[0];
        if k0 > 0 {
            assert(cands[0].0 != cands[k0].0);
        }
    } else {
        let k = choose|k: int| 0 <= k < cands.len() && (#[trigger] cands[k]).0 != cands[0].0;
        assert(has_norm(out, cands[k].0));
        let a = choose|i: int| 0 <= i < out.len() && (#[trigger] out[i]).0 == cands[0].0;
        let b = choose|i: int| 0 <= i < out.len() && (#[trigger] out[i]).0 == cands[k].0;
        assert(a != b);
    }
}

/// What choosing among the files found under the target directory gives:
/// an error when none may be the artifact, the file when all that may be
/// share one normalized path, else an error that lists them.
pub open spec fn fallback_outcome(cands: Seq<PathPair>, r: Result<Seq<char>, Seq<char>>) -> bool {
    if cands.len() == 0 {
        r == Err::<Seq<char>, Seq<char>>(no_fallback_message())
    } else if forall|k: int| 0 <= k < cands.len() ==> (#[trigger] cands[k]).0 == cands[0].0 {
        r == Ok::<Seq<char>, Seq<char>>(cands[0].1)
    } else {
        exists|out: Seq<PathPair>|
            #[trigger] is_desc_set(out, cands) && r == Err::<Seq<char>, Seq<char>>(
                ambiguous_fallback_prefix() + join(out.map_values(|x: PathPair| listed_path(x)), seq!['\n']),
            )
    }
}

/// Chooses the artifact among the files found under the target directory:
/// the readable files that match the name and triple filters, told apart by
/// their normalized path; exactly one is needed.
pub fn select_fallback_artifact(files: &Vec<String>, inputs: &RustInputs) -> (r: Result<String, String>)
    ensures
        fallback_outcome(
            matching_pairs(strs_view(files@), *inputs),
            match r {
                Ok(p) => Ok(p@),
                Err(e) => Err(e@),
            },
        ),
{
    let ghost fv = strs_view(files@);
    let mut out: Vec<(String, String)> = Vec::new();
    let mut i: usize = 0;
    proof {
        reveal(is_desc_set);
        assert(pair_texts(out@) =~= Seq::<PathPair>::empty());
        assert(fv.take(0) =~= Seq::<Seq<char>>::empty());
    }
    while i < files.len()
        invariant
            0 <= i <= files.len(),
            fv == strs_view(files@),
            is_desc_set(pair_texts(out@), matching_pairs(fv.take(i as int), *inputs)),
        decreases files.len() - i,
    {
        let ghost prev = matching_pairs(fv.take(i as int), *inputs);
        assert(fv.take(i + 1).drop_last() =~= fv.take(i as int));
        assert(fv.take(i + 1).last() == files@[i as int]@);
        let path = &files[i];
        let mut ok = is_analyzable_artifact(path.as_str());
        if ok {
            if let Some(n) = &inputs.cargo_target_name {
                ok = match file_name(path.as_str()) {
                    Some(f) => {
                        let ft = string_of(&f);
                        str_contains(ft.as_str(), n.as_str())
                    },
                    None => false,
                };
            }
        }
        if ok {
            if let Some(t) = &inputs.cargo_target_triple {
                let np = normalize_path_string(path.as_str());
                ok = str_contains(np.as_str(), t.as_str());
            }
        }
        assert(ok == fallback_matches(files@[i as int]@, *inputs));
        if ok {
            let x = (normalize_path_string(path.as_str()), copy_string(path));
            add_pair(&mut out, x, Ghost(prev));
        }
        i += 1;
    }
    assert(fv.take(files.len() as int) =~= fv);
    let ghost cands = matching_pairs(fv, *inputs);
    let ghost ov = pair_texts(out@);
    if out.len() == 0 {
        proof {
            reveal(is_desc_set);
            if cands.len() > 0 {
                assert(has_norm(ov, cands[0].0));
            }
        }
        return Err(
            "Rust fallback search is enabled, but no analyzable target artifact was found under Cargo target directories."
                .to_owned(),
        );
    }
    proof {
        reveal(is_desc_set);
        if cands.len() == 0 {
            assert(is_first_pair(cands, ov[0]));
        }
        lemma_desc_set_single(ov, cands);
    }
    if out.len() == 1 {
        return Ok(copy_string(&out[0].1));
    }
    let mut parts: Vec<Vec<char>> = Vec::new();
    let mut k: usize = 0;
    while k < out.len()
        invariant
            0 <= k <= out.len(),
            ov == pair_texts(out@),
            views(parts@) == ov.take(k as int).map_values(|x: PathPair| listed_path(x)),
        decreases out.len() - k,
    {
        let mut line: Vec<char> = Vec::new();
        push_str_chars(&mut line, "  - ");
        push_str_chars(&mut line, out[k].1.as_str());
        let ghost before = parts@;
        let ghost lv = line@;
        parts.push(line);
        assert(views(parts@) =~= views(before).push(lv));
        assert(ov.take(k + 1) =~= ov.take(k as int).push(ov[k as int]));
        k += 1;
    }
    assert(ov.take(out.len() as int) =~= ov);
    let mut msg: Vec<char> = Vec::new();
    push_str_chars(
        &mut msg,
        "Multiple Rust artifacts matched fallback search. Re-run with --cargo-target-name <name> or --cargo-target-triple <triple>.\n",
    );
    let newline: Vec<char> = vec!['\n'];
    assert(newline@ =~= seq!['\n']);
    let joined = join_chars(&parts, &newline);
    push_all(&mut msg, &joined);
    Err(string_of(&msg))
}

// ---------------------------------------------------------------------------
// Resolving the artifact
// ---------------------------------------------------------------------------
/// What resolving the artifact to analyse needs next.
#[derive(Debug, Clone, PartialEq, Eq)]
pub enum ResolutionStep {
    /// The artifact and its Cargo context are known.
    Resolved(RustResolution),
    /// The files under this Cargo target directory are to be listed, and
    /// `finish_fallback_resolution` goes on with them.
    ListTargetDirectory(String),
}

/// The error when the chosen candidate has no readable artifact.
pub open spec fn candidate_without_artifact_message() -> Seq<char> {
    "Cargo build JSON was provided, but no analyzable executable/library artifact was found. Supply --elf or narrow the Cargo target selection."@
}

/// The error when the target-directory search is asked for without metadata.
pub open spec fn fallback_disabled_message() -> Seq<char> {
    "Rust fallback search is disabled unless Cargo metadata is available. Supply --cargo-metadata or --cargo-workspace."@
}

/// The error when metadata was given but nothing resolves.
pub open spec fn unresolved_message() -> Seq<char> {
    "Cargo metadata was provided, but no build artifact could be resolved. Supply --elf or --cargo-build-json."@
}

/// A resolution holds the artifact and a context built from the metadata,
/// the candidate and the artifact.
pub open spec fn resolution_is(
    res: RustResolution,
    artifact: Option<Seq<char>>,
    m: Option<CargoMetadata>,
    c: Option<CandidateText>,
    i: RustInputs,
    used_fallback: bool,
) -> bool {
    &&& opt_text(res.resolved_elf) == artifact
    &&& (res.rust_context is None <==> (m is None && c is None && artifact is None && i.cargo_workspace is None))
    &&& res.rust_context is Some ==> context_is(res.rust_context->0, m, c, artifact, i, used_fallback)
}

/// Starts resolving the artifact to analyse from the artifact named on the
/// command line (if any), the inputs, the Cargo metadata and the build
/// candidates.  Without a Cargo input that asks for resolution, the named
/// artifact stands as it is.
pub fn begin_rust_resolution(
    explicit_elf: Option<&str>,
    inputs: &RustInputs,
    metadata: Option<&CargoMetadata>,
    candidates: &Vec<RustArtifactCandidate>,
) -> (r: Result<ResolutionStep, String>)
    ensures
        !(any_rust_input(*inputs) && inputs.resolve_artifact != ResolveRustArtifactMode::Off) ==> r is Ok
            && r->Ok_0 is Resolved && opt_text(r->Ok_0->Resolved_0.resolved_elf) == opt_str(explicit_elf)
            && r->Ok_0->Resolved_0.rust_context is None,
        (any_rust_input(*inputs) && inputs.resolve_artifact != ResolveRustArtifactMode::Off) ==> match explicit_elf {
            Some(p) => r is Ok && r->Ok_0 is Resolved && resolution_is(
                r->Ok_0->Resolved_0,
                Some(p@),
                deref_opt(metadata),
                context_candidate_for(p@, cand_texts(candidates@), *inputs),
                *inputs,
                false,
            ),
            None => match resolution_without_explicit(cand_texts(candidates@), *inputs) {
                Err(e) => r is Err && r->Err_0@ == e,
                Ok(Some(c)) => match artifact_path_of(c) {
                    Some(a) => r is Ok && r->Ok_0 is Resolved && resolution_is(
                        r->Ok_0->Resolved_0,
                        Some(a),
                        deref_opt(metadata),
                        Some(c),
                        *inputs,
                        false,
                    ),
                    None => r is Err && r->Err_0@ == candidate_without_artifact_message(),
                },
                Ok(None) => if inputs.allow_target_dir_fallback {
                    match metadata {
                        Some(m) => r is Ok && r->Ok_0 is ListTargetDirectory
                            && r->Ok_0->ListTargetDirectory_0@ == m.target_directory@,
                        None => r is Err && r->Err_0@ == fallback_disabled_message(),
                    }
                } else if metadata is Some || inputs.cargo_workspace is Some {
                    r is Err && r->Err_0@ == unresolved_message()
                } else {
                    r is Ok && r->Ok_0 is Resolved && r->Ok_0->Resolved_0.resolved_elf is None
                        && r->Ok_0->Resolved_0.rust_context is None
                },
            },
        },
{
    if !resolution_requested(inputs) {
        let resolved_elf = match explicit_elf {
            Some(p) => Some(p.to_owned()),
            None => None,
        };
        return Ok(ResolutionStep::Resolved(RustResolution { resolved_elf, rust_context: None }));
    }
    match explicit_elf {
        Some(p) => {
            let selected = select_context_candidate_for_explicit(p, candidates, inputs);
            let sel_ref = selected.as_ref();
            assert(opt_cand(sel_ref) == context_candidate_for(p@, cand_texts(candidates@), *inputs));
            let ctx = build_rust_context(metadata, sel_ref, Some(p), inputs, false);
            Ok(ResolutionStep::Resolved(RustResolution { resolved_elf: Some(p.to_owned()), rust_context: ctx }))
        },
        None => {
            let selected = resolve_candidate_without_explicit(candidates, inputs)?;
            match selected {
                Some(c) => {
                    let artifact = match select_artifact_path(&c) {
                        Some(a) => a,
                        None => {
                            return Err(
                                "Cargo build JSON was provided, but no analyzable executable/library artifact was found. Supply --elf or narrow the Cargo target selection."
                                    .to_owned(),
                            );
                        },
                    };
                    let ctx = build_rust_context(metadata, Some(&c), Some(artifact.as_str()), inputs, false);
                    Ok(ResolutionStep::Resolved(RustResolution { resolved_elf: Some(artifact), rust_context: ctx }))
                },
                None => {
                    if inputs.allow_target_dir_fallback {
                        match metadata {
                            Some(m) => Ok(ResolutionStep::ListTargetDirectory(copy_string(&m.target_directory))),
                            None => Err(
                                "Rust fallback search is disabled unless Cargo metadata is available. Supply --cargo-metadata or --cargo-workspace."
                                    .to_owned(),
                            ),
                        }
                    } else if metadata.is_some() || inputs.cargo_workspace.is_some() {
                        Err(
                            "Cargo metadata was provided, but no build artifact could be resolved. Supply --elf or --cargo-build-json."
                                .to_owned(),
                        )
                    } else {
                        Ok(ResolutionStep::Resolved(RustResolution { resolved_elf: None, rust_context: None }))
                    }
                },
            }
        },
    }
}

/// The error when the Cargo target directory is missing.
pub open spec fn missing_target_dir_message(dir: Seq<char>) -> Seq<char> {
    "Rust fallback search is enabled, but Cargo target directory does not exist: "@ + dir
}

/// Finishes resolving the artifact from the files found under the Cargo
/// target directory (`None` when that directory does not exist).
pub fn finish_fallback_resolution(
    inputs: &RustInputs,
    metadata: &CargoMetadata,
    listing: Option<&Vec<String>>,
) -> (r: Result<RustResolution, String>)
    ensures
        listing is None ==> r is Err && r->Err_0@ == missing_target_dir_message(metadata.target_directory@),
        listing is Some ==> fallback_outcome(
            matching_pairs(strs_view(listing->0@), *inputs),
            match r {
                Ok(res) => Ok(res.resolved_elf->0@),
                Err(e) => Err(e@),
            },
        ),
        r is Ok ==> r->Ok_0.resolved_elf is Some && resolution_is(
            r->Ok_0,
            Some(r->Ok_0.resolved_elf->0@),
            Some(*metadata),
            None,
            *inputs,
            true,
        ),
{
    let files = match listing {
        Some(f) => f,
        None => {
            let mut v: Vec<char> = Vec::new();
            push_str_chars(&mut v, "Rust fallback search is enabled, but Cargo target directory does not exist: ");
            push_str_chars(&mut v, metadata.target_directory.as_str());
            return Err(string_of(&v));
        },
    };
    match select_fallback_artifact(files, inputs) {
        Err(e) => Err(e),
        Ok(p) => {
            let ctx = build_rust_context(Some(metadata), None, Some(p.as_str()), inputs, true);
            Ok(RustResolution { resolved_elf: Some(p), rust_context: ctx })
        },
    }
}

} // verus!
