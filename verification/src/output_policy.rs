//! Where build artifacts and saved reports go, and which output paths are allowed.
//!
//! Paths are text here, separated by `/` or `\`; the profile and the project root
//! are found by the caller.
use vstd::prelude::*;
use crate::error::AppError;
use crate::report::VersionDiffReportV2;
use crate::scan::{split_chars, split_on};
use crate::text::{
    char_is_ascii_alnum, chars_of, contains_text, is_ascii_alnum, is_ascii_lower, is_ascii_upper,
    lower_seq, new_string, push_char, push_str,
    str_eq, string_of, to_ascii_lowercase, views,
};

verus! {

#[derive(Debug, Clone, Copy, PartialEq, Eq)]
pub enum BuildProfile {
    DebugLike,
    Release,
}

pub open spec fn spec_root_name(profile: BuildProfile) -> Seq<char> {
    match profile {
        BuildProfile::DebugLike => "out"@,
        BuildProfile::Release => "release"@,
    }
}

/// The artifact directory name of a build profile: `out` or `release`.
pub fn default_artifact_root(profile: BuildProfile) -> (r: &'static str)
    ensures
        r@ == spec_root_name(profile),
{
    match profile {
        BuildProfile::DebugLike => "out",
        BuildProfile::Release => "release",
    }
}

/// `base` with `segment` appended as one more path component (`Path::join` for a
/// relative segment).
pub open spec fn spec_join(base: Seq<char>, segment: Seq<char>) -> Seq<char> {
    if base.len() == 0 {
        segment
    } else if base.last() == '/' {
        base + segment
    } else {
        base + seq!['/'] + segment
    }
}

pub fn join_path(base: &str, segment: &str) -> (r: String)
    ensures
        r@ == spec_join(base@, segment@),
{
    let v = chars_of(base);
    let mut r = new_string(base);
    if v.len() > 0 && v[v.len() - 1] != '/' {
        push_char(&mut r, '/');
    }
    push_str(&mut r, segment);
    proof {
        if base@.len() > 0 && base@.last() != '/' {
            assert(r@ =~= base@ + seq!['/'] + segment@);
        }
    }
    r
}

/// The artifact root of a project for a build profile: the project root joined with `out` or `release`.
pub fn artifact_root_for_project(project_root: &str, profile: BuildProfile) -> (r: String)
    ensures
        r@ == spec_join(project_root@, spec_root_name(profile)),
{
    join_path(project_root, default_artifact_root(profile))
}

/// Where saved reports live under an artifact root.
pub fn report_store_root(artifact_root: &str) -> (r: String)
    ensures
        r@ == spec_join(artifact_root@, "report"@),
{
    join_path(artifact_root, "report")
}

// ---------------------------------------------------------------------------
// Path text
// ---------------------------------------------------------------------------

pub open spec fn segment_char(c: char) -> char {
    if is_ascii_alnum(c) || c == '-' || c == '_' || c == '.' {
        c
    } else {
        '_'
    }
}

/// A version id made safe for a file name: every character outside ASCII
/// letters, digits, `-`, `_` and `.` becomes `_`.
pub open spec fn spec_sanitize_segment(v: Seq<char>) -> Seq<char> {
    v.map_values(|c: char| segment_char(c))
}

pub fn sanitize_segment(value: &str) -> (r: String)
    ensures
        r@ == spec_sanitize_segment(value@),
{
    let v = chars_of(value);
    let mut out: Vec<char> = Vec::new();
    let mut i: usize = 0;
    while i < v.len()
        invariant
            i <= v@.len(),
            v@ == value@,
            out@ == v@.take(i as int).map_values(|c: char| segment_char(c)),
        decreases v.len() - i,
    {
        let c = v[i];
        let d = if char_is_ascii_alnum(c) || c == '-' || c == '_' || c == '.' {
            c
        } else {
            '_'
        };
        out.push(d);
        proof {
            assert(v@.take(i + 1).map_values(|c: char| segment_char(c)) =~= v@.take(
                i as int,
            ).map_values(|c: char| segment_char(c)).push(segment_char(c)));
        }
        i = i + 1;
    }
    proof {
        assert(v@.take(v@.len() as int) =~= v@);
    }
    string_of(&out)
}

/// The kept components of split pieces: empty pieces and `.` are dropped.
pub open spec fn kept_components(pieces: Seq<Seq<char>>) -> Seq<Seq<char>>
    decreases pieces.len(),
{
    if pieces.len() == 0 {
        Seq::empty()
    } else {
        let rest = kept_components(pieces.drop_last());
        let p = pieces.last();
        if p.len() == 0 || p == seq!['.'] {
            rest
        } else {
            rest.push(p)
        }
    }
}

/// A `\` read as the separator `/`.
pub open spec fn sep_char(c: char) -> char {
    if c == '\\' {
        '/'
    } else {
        c
    }
}

/// The path with every `\` turned into `/`.
pub open spec fn slashed(path: Seq<char>) -> Seq<char> {
    path.map_values(|c: char| sep_char(c))
}

/// The named components of a path separated by `/` or `\` (`..` kept as it is).
pub open spec fn path_components(path: Seq<char>) -> Seq<Seq<char>> {
    kept_components(split_on(slashed(path), '/'))
}

fn slashed_chars(path: &str) -> (r: Vec<char>)
    ensures
        r@ == slashed(path@),
{
    let v = chars_of(path);
    let mut out: Vec<char> = Vec::new();
    let mut i: usize = 0;
    while i < v.len()
        invariant
            i <= v@.len(),
            v@ == path@,
            out@ == v@.take(i as int).map_values(|c: char| sep_char(c)),
        decreases v.len() - i,
    {
        let c = v[i];
        let d = if c == '\\' {
            '/'
        } else {
            c
        };
        out.push(d);
        proof {
            assert(v@.take(i + 1).map_values(|c: char| sep_char(c)) =~= v@.take(
                i as int,
            ).map_values(|c: char| sep_char(c)).push(sep_char(c)));
        }
        i = i + 1;
    }
    proof {
        assert(v@.take(v@.len() as int) =~= v@);
    }
    out
}

pub fn normalize_components(path: &str) -> (r: Vec<String>)
    ensures
        views(r@) == path_components(path@),
{
    let v = slashed_chars(path);
    let pieces = split_chars(&v, '/');
    let ghost ps = split_on(v@, '/');
    let mut out: Vec<String> = Vec::new();
    let mut i: usize = 0;
    proof {
        assert(ps.take(0) =~= Seq::<Seq<char>>::empty());
        assert(views(out@) =~= Seq::<Seq<char>>::empty());
    }
    while i < pieces.len()
        invariant
            i <= pieces@.len(),
            pieces@.len() == ps.len(),
            forall|k: int| 0 <= k < pieces@.len() ==> #[trigger] pieces@[k]@ == ps[k],
            views(out@) == kept_components(ps.take(i as int)),
        decreases pieces.len() - i,
    {
        let p = &pieces[i];
        proof {
            assert(ps.take(i + 1).drop_last() =~= ps.take(i as int));
            assert(ps.take(i + 1).last() == ps[i as int]);
        }
        if !(p.len() == 0 || (p.len() == 1 && p[0] == '.')) {
            let s = string_of(p);
            proof {
                assert(views(out@.push(s)) =~= views(out@).push(s@));
            }
            out.push(s);
        } else {
            proof {
                if p@.len() == 1 {
                    assert(p@ =~= seq!['.']);
                }
            }
        }
        proof {
            if p@.len() == 1 && p@[0] != '.' {
                assert(p@ != seq!['.']);
            }
        }
        i = i + 1;
    }
    proof {
        assert(ps.take(ps.len() as int) =~= ps);
    }
    out
}

/// The components of `prefix` open the components of `path` (`Path::starts_with`).
pub open spec fn components_start_with(path: Seq<char>, prefix: Seq<char>) -> bool {
    let a = path_components(path);
    let b = path_components(prefix);
    b.len() <= a.len() && a.take(b.len() as int) == b
}

fn components_prefix(a: &Vec<String>, b: &Vec<String>) -> (r: bool)
    ensures
        r == (views(b@).len() <= views(a@).len() && views(a@).take(views(b@).len() as int) == views(
            b@,
        )),
{
    if b.len() > a.len() {
        return false;
    }
    let mut i: usize = 0;
    while i < b.len()
        invariant
            b@.len() <= a@.len(),
            i <= b@.len(),
            forall|k: int| 0 <= k < i ==> #[trigger] a@[k]@ == b@[k]@,
        decreases b.len() - i,
    {
        if !str_eq(a[i].as_str(), b[i].as_str()) {
            proof {
                assert(views(a@).take(views(b@).len() as int)[i as int] != views(b@)[i as int]);
            }
            return false;
        }
        i = i + 1;
    }
    proof {
        assert(views(a@).take(views(b@).len() as int) =~= views(b@));
    }
    true
}

/// An absolute path: it starts with `/`, or with a drive letter, `:` and a
/// separator. A drive letter without a separator (`C:x`) and a lone leading `\`
/// name paths relative to a drive or its current folder, not absolute ones.
pub open spec fn is_absolute_path(path: Seq<char>) -> bool {
    path.len() > 0 && (path[0] == '/' || (path.len() >= 3 && path[1] == ':' && (is_ascii_lower(
        path[0],
    ) || is_ascii_upper(path[0])) && (path[2] == '/' || path[2] == '\\')))
}

/// Why an artifact output path is refused, or `None` when it is allowed. A path
/// with a `..` component is refused outright, so that no accepted path climbs into
/// `src/`, `tests/` or the project root.
pub open spec fn spec_output_path_error(
    path: Seq<char>,
    project_root: Seq<char>,
    profile: BuildProfile,
) -> Option<Seq<char>> {
    let comps = path_components(path);
    if path.len() == 0 {
        Some("artifact output path must not be empty"@)
    } else if comps.contains(".."@) {
        Some("artifact output path "@ + path + " must not climb out of a directory with `..`"@)
    } else if is_absolute_path(path) {
        if components_start_with(path, spec_join(project_root, "src"@)) || components_start_with(
            path,
            spec_join(project_root, "tests"@),
        ) {
            Some(
                "artifact output path "@ + path + " is not allowed under source directories"@,
            )
        } else if components_start_with(path, project_root) && comps.len()
            <= path_components(project_root).len() + 1 {
            Some(
                "artifact output path "@ + path
                    + " must be written under a dedicated directory, not the project root"@,
            )
        } else if profile == BuildProfile::Release && !components_start_with(
            path,
            spec_join(project_root, "release"@),
        ) {
            Some("release build artifacts must be written under release/, got "@ + path)
        } else {
            None
        }
    } else if comps.len() == 0 {
        Some("artifact output path must not be empty"@)
    } else if lower_seq(comps[0]) == "src"@ || lower_seq(comps[0]) == "tests"@ {
        Some("artifact output path "@ + path + " is not allowed under "@ + comps[0])
    } else if comps.len() == 1 {
        Some(
            "artifact output path "@ + path
                + " must be written under a dedicated directory, not the project root"@,
        )
    } else if profile == BuildProfile::Release && lower_seq(comps[0]) != "release"@ {
        Some("release build artifacts must be written under release/, got "@ + path)
    } else {
        None
    }
}

fn text3(a: &str, b: &str, c: &str) -> (r: String)
    ensures
        r@ == a@ + b@ + c@,
{
    let mut s = new_string(a);
    push_str(&mut s, b);
    push_str(&mut s, c);
    s
}

/// Checks an artifact output path: it is not empty and has no `..` component, an
/// absolute path is neither under the project's `src/` or `tests/` nor directly in
/// the project root, and a relative path names a dedicated directory other than
/// `src` or `tests`, which for a release build is `release`.
pub fn validate_artifact_output_path(path: &str, project_root: &str, profile: BuildProfile) -> (r:
    Result<(), AppError>)
    ensures
        match spec_output_path_error(path@, project_root@, profile) {
            Some(m) => r matches Err(AppError::InvalidInput(e)) && e@ == m,
            None => r is Ok,
        },
{
    let v = chars_of(path);
    if v.len() == 0 {
        return Err(AppError::InvalidInput(new_string("artifact output path must not be empty")));
    }
    let normalized = normalize_components(path);
    if contains_text(&normalized, "..") {
        return Err(
            AppError::InvalidInput(
                text3(
                    "artifact output path ",
                    path,
                    " must not climb out of a directory with `..`",
                ),
            ),
        );
    }
    let absolute = v[0] == '/' || (v.len() >= 3 && v[1] == ':' && (('a' <= v[0] && v[0] <= 'z') || (
    'A' <= v[0] && v[0] <= 'Z')) && (v[2] == '/' || v[2] == '\\'));
    if absolute {
        let src = join_path(project_root, "src");
        let tests = join_path(project_root, "tests");
        let src_comps = normalize_components(src.as_str());
        let tests_comps = normalize_components(tests.as_str());
        if components_prefix(&normalized, &src_comps) || components_prefix(
            &normalized,
            &tests_comps,
        ) {
            return Err(
                AppError::InvalidInput(
                    text3(
                        "artifact output path ",
                        path,
                        " is not allowed under source directories",
                    ),
                ),
            );
        }
        let root_comps = normalize_components(project_root);
        if components_prefix(&normalized, &root_comps) && (normalized.len() == 0 || normalized.len() - 1 <= root_comps.len()) {
            return Err(
                AppError::InvalidInput(
                    text3(
                        "artifact output path ",
                        path,
                        " must be written under a dedicated directory, not the project root",
                    ),
                ),
            );
        }
        if matches!(profile, BuildProfile::Release) {
            let release = join_path(project_root, "release");
            let release_comps = normalize_components(release.as_str());
            if !components_prefix(&normalized, &release_comps) {
                let mut m = new_string("release build artifacts must be written under release/, got ");
                push_str(&mut m, path);
                return Err(AppError::InvalidInput(m));
            }
        }
        return Ok(());
    }
    if normalized.len() == 0 {
        return Err(AppError::InvalidInput(new_string("artifact output path must not be empty")));
    }
    let root_name = to_ascii_lowercase(normalized[0].as_str());
    if str_eq(root_name.as_str(), "src") || str_eq(root_name.as_str(), "tests") {
        let mut m = text3("artifact output path ", path, " is not allowed under ");
        push_str(&mut m, normalized[0].as_str());
        return Err(AppError::InvalidInput(m));
    }
    if normalized.len() == 1 {
        return Err(
            AppError::InvalidInput(
                text3(
                    "artifact output path ",
                    path,
                    " must be written under a dedicated directory, not the project root",
                ),
            ),
        );
    }
    if matches!(profile, BuildProfile::Release) && !str_eq(root_name.as_str(), "release") {
        let mut m = new_string("release build artifacts must be written under release/, got ");
        push_str(&mut m, path);
        return Err(AppError::InvalidInput(m));
    }
    Ok(())
}

pub open spec fn spec_report_library_path(store_root: Seq<char>, old_id: Seq<char>, new_id: Seq<char>) -> Seq<
    char,
> {
    let safe_old = spec_sanitize_segment(old_id);
    let safe_new = spec_sanitize_segment(new_id);
    spec_join(
        spec_join(spec_join(store_root, "wuwa_"@ + safe_new), "report_bundle"@),
        safe_old + "-to-"@ + safe_new + ".report.v2.json"@,
    )
}

/// Where a report is saved in the report library under `store_root`:
/// `wuwa_<new>/report_bundle/<old>-to-<new>.report.v2.json`, with the version ids sanitized.
pub fn default_report_library_path(report: &VersionDiffReportV2, store_root: &str) -> (r: String)
    ensures
        r@ == spec_report_library_path(
            store_root@,
            report.old_version.version_id@,
            report.new_version.version_id@,
        ),
{
    let safe_old = sanitize_segment(report.old_version.version_id.as_str());
    let safe_new = sanitize_segment(report.new_version.version_id.as_str());
    let mut dir_name = new_string("wuwa_");
    push_str(&mut dir_name, safe_new.as_str());
    let a = join_path(store_root, dir_name.as_str());
    let b = join_path(a.as_str(), "report_bundle");
    let mut file = safe_old.clone();
    push_str(&mut file, "-to-");
    push_str(&mut file, safe_new.as_str());
    push_str(&mut file, ".report.v2.json");
    join_path(b.as_str(), file.as_str())
}

/// An accepted relative output path sits in a dedicated directory below the
/// project: it has no `..` component and at least two components, the first is neither `src` nor `tests`
/// (in any ASCII case), and for a release build it is `release`.
pub proof fn accepted_relative_outputs_stay_in_a_dedicated_directory(
    path: Seq<char>,
    project_root: Seq<char>,
    profile: BuildProfile,
)
    requires
        spec_output_path_error(path, project_root, profile) is None,
        !is_absolute_path(path),
    ensures
        !path_components(path).contains(".."@),
        path_components(path).len() >= 2,
        lower_seq(path_components(path)[0]) != "src"@,
        lower_seq(path_components(path)[0]) != "tests"@,
        profile == BuildProfile::Release ==> lower_seq(path_components(path)[0]) == "release"@,
{
}

/// An accepted absolute output path has no `..` component, lies neither under the
/// project's `src/` or `tests/` nor directly in the project root, and for a release
/// build lies under the project's `release/`.
pub proof fn accepted_absolute_outputs_avoid_source_directories(
    path: Seq<char>,
    project_root: Seq<char>,
    profile: BuildProfile,
)
    requires
        spec_output_path_error(path, project_root, profile) is None,
        is_absolute_path(path),
    ensures
        !path_components(path).contains(".."@),
        !components_start_with(path, spec_join(project_root, "src"@)),
        !components_start_with(path, spec_join(project_root, "tests"@)),
        components_start_with(path, project_root) ==> path_components(path).len()
            > path_components(project_root).len() + 1,
        profile == BuildProfile::Release ==> components_start_with(
            path,
            spec_join(project_root, "release"@),
        ),
{
}


/// `root` as a directory prefix: empty stays empty, else it ends in one `/`.
pub open spec fn dir_prefix(root: Seq<char>) -> Seq<char> {
    if root.len() == 0 {
        root
    } else if root.last() == '/' {
        root
    } else {
        root + seq!['/']
    }
}

/// A report is filed under its new version: the library path is
/// `<store_root>/wuwa_<new>/report_bundle/<old>-to-<new>.report.v2.json`, both
/// version ids sanitized, so every report into one version shares one folder.
pub proof fn reports_are_filed_under_the_new_version(store_root: Seq<char>, old_id: Seq<char>, new_id: Seq<char>)
    ensures
        spec_report_library_path(store_root, old_id, new_id) == dir_prefix(store_root) + "wuwa_"@
            + spec_sanitize_segment(new_id) + "/report_bundle/"@ + spec_sanitize_segment(old_id) + "-to-"@
            + spec_sanitize_segment(new_id) + ".report.v2.json"@,
{
    reveal_strlit("wuwa_");
    reveal_strlit("report_bundle");
    reveal_strlit("/report_bundle/");
    let sn = spec_sanitize_segment(new_id);
    let so = spec_sanitize_segment(old_id);
    let d1 = "wuwa_"@ + sn;
    let a = spec_join(store_root, d1);
    assert(a =~= dir_prefix(store_root) + d1);
    assert(a.len() > 0);
    if sn.len() > 0 {
        assert(a.last() == sn.last());
        assert(sn.last() == segment_char(new_id.last()));
        assert(a.last() != '/');
    } else {
        assert(a.last() == '_');
    }
    let b = spec_join(a, "report_bundle"@);
    assert(b =~= a + seq!['/'] + "report_bundle"@);
    assert(b.last() == 'e');
    let file = so + "-to-"@ + sn + ".report.v2.json"@;
    assert(spec_join(b, file) =~= b + seq!['/'] + file);
    assert(spec_join(b, file) =~= dir_prefix(store_root) + "wuwa_"@ + sn + "/report_bundle/"@ + so + "-to-"@ + sn
        + ".report.v2.json"@);
}

} // verus!
