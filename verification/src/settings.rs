//! Checking settings before they are saved: every configured path must be
//! usable.
use vstd::prelude::*;

use crate::errors::AppError;
use crate::models::{
    AppSettings, AppSettingsPatch, NullableStringPatch, PathIssue, PathIssueSeverity, ResolvedPath,
    ResolvedPaths, opt_str, patched_flag, patched_into, privacy_safe, sanitize_path_spec, strs,
};
use crate::paths::{
    PathInputs, PathKind, expected_issues, is_absolute_path, issue_view, issues_view, paths_resolved,
    relative_issue, resolve_paths_with_inputs,
};
use crate::text::concat3;

verus! {

/// Where the settings file lies.
pub struct SettingsStore {
    pub path: String,
}

impl SettingsStore {
    /// A store for the settings file at `path`.
    pub fn new(path: String) -> (r: SettingsStore)
        ensures
            r.path == path,
    {
        SettingsStore { path }
    }
}

/// The messages of a path's blocking issues, each after the path's label.
pub open spec fn path_errors(label: Seq<char>, issues: Seq<PathIssue>) -> Seq<Seq<char>>
    decreases issues.len(),
{
    if issues.len() == 0 {
        Seq::empty()
    } else {
        path_errors(label, issues.drop_last()) + if issues.last().severity
            == PathIssueSeverity::Error {
            seq![label + ": "@ + issues.last().message@]
        } else {
            Seq::empty()
        }
    }
}

/// Adds the messages of a path's blocking issues to `errors`.
pub fn collect_path_errors(path: &ResolvedPath, errors: &mut Vec<String>)
    ensures
        strs(final(errors)@) == strs(old(errors)@) + path_errors(path.label@, path.issues@),
{
    let ghost start = strs(errors@);
    let mut i: usize = 0;
    while i < path.issues.len()
        invariant
            0 <= i <= path.issues@.len(),
            strs(errors@) == start + path_errors(path.label@, path.issues@.take(i as int)),
        decreases path.issues.len() - i,
    {
        assert(path.issues@.take(i + 1).drop_last() =~= path.issues@.take(i as int));
        let ghost before = strs(errors@);
        if path.issues[i].severity == PathIssueSeverity::Error {
            errors.push(concat3(path.label.as_str(), ": ", path.issues[i].message.as_str()));
            assert(strs(errors@) =~= before + seq![
                path.label@ + ": "@ + path.issues@[i as int].message@,
            ]);
        } else {
            assert(strs(errors@) =~= before + Seq::<Seq<char>>::empty());
        }
        i += 1;
    }
    assert(path.issues@.take(path.issues@.len() as int) =~= path.issues@);
}

/// The blocking messages of custom folders, in order.
pub open spec fn custom_errors(folders: Seq<ResolvedPath>) -> Seq<Seq<char>>
    decreases folders.len(),
{
    if folders.len() == 0 {
        Seq::empty()
    } else {
        custom_errors(folders.drop_last()) + path_errors(folders.last().label@, folders.last().issues@)
    }
}

/// The blocking messages of all resolved paths: the Hugging Face cache,
/// the LM Studio folder, then each custom folder.
pub open spec fn blocking_errors(paths: ResolvedPaths) -> Seq<Seq<char>> {
    path_errors(paths.hf_cache.label@, paths.hf_cache.issues@) + path_errors(
        paths.lm_studio_models.label@,
        paths.lm_studio_models.issues@,
    ) + custom_errors(paths.custom_model_folders@)
}

/// Every blocking message of the resolved paths.
pub fn blocking_path_errors(paths: &ResolvedPaths) -> (r: Vec<String>)
    ensures
        strs(r@) == blocking_errors(*paths),
{
    let mut errors: Vec<String> = Vec::new();
    collect_path_errors(&paths.hf_cache, &mut errors);
    collect_path_errors(&paths.lm_studio_models, &mut errors);
    let ghost head = strs(errors@);
    let mut i: usize = 0;
    while i < paths.custom_model_folders.len()
        invariant
            0 <= i <= paths.custom_model_folders@.len(),
            strs(errors@) == head + custom_errors(paths.custom_model_folders@.take(i as int)),
        decreases paths.custom_model_folders.len() - i,
    {
        assert(paths.custom_model_folders@.take(i + 1).drop_last() =~= paths.custom_model_folders@.take(
            i as int,
        ));
        collect_path_errors(&paths.custom_model_folders[i], &mut errors);
        i += 1;
    }
    assert(paths.custom_model_folders@.take(paths.custom_model_folders@.len() as int)
        =~= paths.custom_model_folders@);
    errors
}

/// Refuses settings whose resolved paths have blocking issues, with one
/// message per issue.
pub fn validate_resolved_paths(paths: &ResolvedPaths) -> (r: Result<(), AppError>)
    ensures
        match r {
            Ok(()) => blocking_errors(*paths).len() == 0,
            Err(AppError::InvalidSettings(m)) => blocking_errors(*paths).len() > 0 && strs(m@)
                == blocking_errors(*paths),
            Err(_) => false,
        },
{
    let errors = blocking_path_errors(paths);
    if errors.len() == 0 {
        Ok(())
    } else {
        Err(AppError::InvalidSettings(errors))
    }
}

/// The outcome of checking resolved paths.
pub open spec fn paths_check(p: ResolvedPaths, r: Result<(), AppError>) -> bool {
    match r {
        Ok(()) => blocking_errors(p).len() == 0,
        Err(AppError::InvalidSettings(m)) => blocking_errors(p).len() > 0 && strs(m@)
            == blocking_errors(p),
        Err(_) => false,
    }
}

/// Refuses settings whose paths, resolved with `inputs` (which looks at
/// the file system), have blocking issues.
pub fn validate_settings_for_save(settings: &AppSettings, inputs: &PathInputs) -> (r: Result<
    (),
    AppError,
>)
    ensures
        exists|p: ResolvedPaths| paths_resolved(p, *settings, *inputs) && #[trigger] paths_check(p, r),
{
    let resolved = resolve_paths_with_inputs(settings, inputs);
    let r = validate_resolved_paths(&resolved);
    assert(paths_check(resolved, r));
    r
}

/// The outcome of changing `current` by `patch`: the patched settings when
/// the paths they name (as resolved with `inputs`) have no blocking issue,
/// else the list of blocking messages.
pub open spec fn update_outcome(
    r: Result<AppSettings, AppError>,
    current: AppSettings,
    patch: AppSettingsPatch,
    inputs: PathInputs,
) -> bool {
    exists|s: AppSettings, p: ResolvedPaths|
        #![trigger paths_resolved(p, s, inputs)]
        {
            &&& patched_into(s, current, patch)
            &&& paths_resolved(p, s, inputs)
            &&& match r {
                Ok(x) => x == s && paths_check(p, Ok(())),
                Err(e) => paths_check(p, Err(e)),
            }
        }
}

/// A settings change keeps what the patch leaves out: a path field the
/// patch does not mention, the folder list when the patch gives none, and
/// every preference the patch does not set keep their values; the
/// preferences it sets take the patch's values; and the privacy
/// invariants hold.
pub proof fn update_keeps_what_the_patch_leaves_out(
    r: Result<AppSettings, AppError>,
    current: AppSettings,
    patch: AppSettingsPatch,
    inputs: PathInputs,
)
    requires
        update_outcome(r, current, patch, inputs),
        r is Ok,
    ensures
        ({
            let x = r->Ok_0;
            &&& patch.hf_cache_path == NullableStringPatch::Missing ==> opt_str(x.hf_cache_path) == opt_str(
                current.hf_cache_path,
            )
            &&& patch.lm_studio_models_path == NullableStringPatch::Missing ==> opt_str(
                x.lm_studio_models_path,
            ) == opt_str(current.lm_studio_models_path)
            &&& patch.custom_model_folders is None ==> strs(x.custom_model_folders@) == strs(
                current.custom_model_folders@,
            )
            &&& x.minimize_to_tray == patched_flag(current.minimize_to_tray, patch.minimize_to_tray)
            &&& x.start_on_login == patched_flag(current.start_on_login, patch.start_on_login)
            &&& x.enable_symlink_attempt == patched_flag(
                current.enable_symlink_attempt,
                patch.enable_symlink_attempt,
            )
            &&& x.scan_on_startup == patched_flag(current.scan_on_startup, patch.scan_on_startup)
            &&& privacy_safe(x)
        }),
{
    let (s, p) = choose|s: AppSettings, p: ResolvedPaths|
        #![trigger paths_resolved(p, s, inputs)]
        {
            &&& patched_into(s, current, patch)
            &&& paths_resolved(p, s, inputs)
            &&& match r {
                Ok(x) => x == s && paths_check(p, Ok(())),
                Err(e) => paths_check(p, Err(e)),
            }
        };
    assert(r->Ok_0 == s);
}

/// A path issue of error severity gives a blocking message.
proof fn lemma_error_issue_blocks(label: Seq<char>, issues: Seq<PathIssue>, i: int)
    requires
        0 <= i < issues.len(),
        issues[i].severity == PathIssueSeverity::Error,
    ensures
        path_errors(label, issues).len() > 0,
    decreases issues.len(),
{
    if i < issues.len() - 1 {
        assert(issues.drop_last()[i] == issues[i]);
        lemma_error_issue_blocks(label, issues.drop_last(), i);
    }
}

/// A change that sets the Hugging Face cache to a path that is not
/// absolute is refused, with the list of blocking path messages.
pub proof fn update_refuses_relative_cache_path(
    r: Result<AppSettings, AppError>,
    current: AppSettings,
    patch: AppSettingsPatch,
    inputs: PathInputs,
    x: String,
)
    requires
        update_outcome(r, current, patch, inputs),
        patch.hf_cache_path == NullableStringPatch::Assign(x),
        sanitize_path_spec(x@) matches Some(t) && !is_absolute_path(t),
    ensures
        r matches Err(AppError::InvalidSettings(m)) && m@.len() > 0,
{
    let (s, p) = choose|s: AppSettings, p: ResolvedPaths|
        #![trigger paths_resolved(p, s, inputs)]
        {
            &&& patched_into(s, current, patch)
            &&& paths_resolved(p, s, inputs)
            &&& match r {
                Ok(x) => x == s && paths_check(p, Ok(())),
                Err(e) => paths_check(p, Err(e)),
            }
        };
    let t = sanitize_path_spec(x@)->Some_0;
    assert(opt_str(s.hf_cache_path) == Some(t));
    let h = p.hf_cache;
    assert(issues_view(h.issues@) == expected_issues(t, PathKind::ModelRoot, h.exists, h.is_directory));
    assert(issues_view(h.issues@)[0] == relative_issue());
    assert(issue_view(h.issues@[0]) == issues_view(h.issues@)[0]);
    lemma_error_issue_blocks(h.label@, h.issues@, 0);
    assert(blocking_errors(p).len() > 0);
}

/// Settings after a change: the current settings with the patch applied,
/// unless the paths they then name cannot be used.
pub fn updated_settings(current: AppSettings, patch: AppSettingsPatch, inputs: &PathInputs) -> (r:
    Result<AppSettings, AppError>)
    ensures
        update_outcome(r, current, patch, *inputs),
{
    let mut settings = current;
    settings.apply_patch(patch);
    let ghost s = settings;
    let resolved = resolve_paths_with_inputs(&settings, inputs);
    match validate_resolved_paths(&resolved) {
        Ok(()) => {
            assert(paths_check(resolved, Ok(())));
            Ok(settings)
        },
        Err(e) => {
            let ghost ee = e;
            assert(paths_check(resolved, Err(ee)));
            Err(e)
        },
    }
}

} // verus!
