//! The capability binder: decides, from the globals a compositor
//! advertises, which optional protocol extensions are available and at
//! which version.
//!
//! Absence of an extension is not an error: it is a capability-availability
//! fact, recorded so that dependent operations can fail cleanly at call
//! time instead of at startup.

use vstd::prelude::*;

use crate::screencopy::CaptureBindings;

verus! {

/// One global the compositor advertises: an interface name and the highest
/// version the compositor offers.
#[derive(Debug)]
pub struct GlobalEntry {
    /// The interface name.
    pub interface: String,
    /// The highest version the compositor offers.
    pub version: u32,
}

/// One protocol extension a client would like to bind: an interface name
/// and the version range it can drive.
#[derive(Debug)]
pub struct Candidate {
    /// The interface name.
    pub interface: String,
    /// The lowest version the client can drive.
    pub min_version: u32,
    /// The highest version the client can drive.
    pub max_version: u32,
}

/// Whether some advertised global has this interface name at version at
/// least `min_version`.
pub open spec fn spec_has_global(globals: Seq<GlobalEntry>, interface: Seq<char>, min_version: u32) -> bool {
    exists|i: int|
        0 <= i < globals.len() && (#[trigger] globals[i]).interface@ == interface
            && globals[i].version >= min_version
}

/// The index of the first advertised global with this interface name, or
/// `-1` if none has it.
pub open spec fn spec_global_index(globals: Seq<GlobalEntry>, interface: Seq<char>) -> int
    decreases globals.len(),
{
    if globals.len() == 0 {
        -1
    } else if globals[0].interface@ == interface {
        0
    } else {
        let r = spec_global_index(globals.drop_first(), interface);
        if r < 0 {
            -1
        } else {
            r + 1
        }
    }
}

/// What `spec_global_index` means: `-1` exactly when no global has the
/// name, and otherwise the smallest index of one that does.
pub proof fn lemma_global_index(globals: Seq<GlobalEntry>, interface: Seq<char>)
    ensures
        spec_global_index(globals, interface) == -1 ==> forall|j: int|
            0 <= j < globals.len() ==> (#[trigger] globals[j]).interface@ != interface,
        spec_global_index(globals, interface) != -1 ==> {
            let i = spec_global_index(globals, interface);
            &&& 0 <= i < globals.len()
            &&& globals[i].interface@ == interface
            &&& forall|j: int| 0 <= j < i ==> (#[trigger] globals[j]).interface@ != interface
        },
    decreases globals.len(),
{
    if globals.len() == 0 {
    } else if globals[0].interface@ == interface {
    } else {
        lemma_global_index(globals.drop_first(), interface);
        let t = globals.drop_first();
        let r = spec_global_index(t, interface);
        if r < 0 {
            assert forall|j: int|
                0 <= j < globals.len() implies (#[trigger] globals[j]).interface@ != interface by {
                if j > 0 {
                    assert(globals[j] == t[j - 1]);
                }
            }
        } else {
            assert(globals[r + 1] == t[r]);
            assert forall|j: int|
                0 <= j < r + 1 implies (#[trigger] globals[j]).interface@ != interface by {
                if j > 0 {
                    assert(globals[j] == t[j - 1]);
                }
            }
        }
    }
}

/// Finds the first advertised global with this interface name.
pub fn find_global<'a>(globals: &'a Vec<GlobalEntry>, interface: &String) -> (r: Option<
    &'a GlobalEntry,
>)
    ensures
        match r {
            Some(g) => {
                let i = spec_global_index(globals@, interface@);
                &&& 0 <= i < globals@.len()
                &&& *g == globals@[i]
                &&& g.interface@ == interface@
            },
            None => forall|j: int|
                0 <= j < globals@.len() ==> (#[trigger] globals@[j]).interface@ != interface@,
        },
{
    proof {
        lemma_global_index(globals@, interface@);
    }
    let mut i: usize = 0;
    while i < globals.len()
        invariant
            i <= globals@.len(),
            forall|j: int| 0 <= j < i ==> (#[trigger] globals@[j]).interface@ != interface@,
            spec_global_index(globals@, interface@) != -1 ==> {
                let fi = spec_global_index(globals@, interface@);
                &&& 0 <= fi < globals@.len()
                &&& globals@[fi].interface@ == interface@
                &&& forall|j: int| 0 <= j < fi ==> (#[trigger] globals@[j]).interface@ != interface@
            },
            spec_global_index(globals@, interface@) == -1 ==> forall|j: int|
                0 <= j < globals@.len() ==> (#[trigger] globals@[j]).interface@ != interface@,
        decreases globals@.len() - i,
    {
        if globals[i].interface == *interface {
            proof {
                let fi = spec_global_index(globals@, interface@);
                assert(fi != -1);
                assert(fi == i as int);
            }
            return Some(&globals[i]);
        }
        i = i + 1;
    }
    None
}

/// Attempts to bind one candidate extension: succeeds when a global with
/// the candidate's interface name is advertised at a version at least the
/// candidate's minimum, and then negotiates the advertised version capped
/// at the candidate's maximum. Absence yields nothing, not an error.
pub fn bind_candidate(globals: &Vec<GlobalEntry>, candidate: &Candidate) -> (r: Option<u32>)
    ensures
        match r {
            Some(v) => {
                let i = spec_global_index(globals@, candidate.interface@);
                &&& 0 <= i < globals@.len()
                &&& globals@[i].version >= candidate.min_version
                &&& v == (if globals@[i].version <= candidate.max_version {
                    globals@[i].version
                } else {
                    candidate.max_version
                })
            },
            None => {
                let i = spec_global_index(globals@, candidate.interface@);
                i == -1 || (0 <= i < globals@.len() && globals@[i].version < candidate.min_version)
            },
        },
{
    match find_global(globals, &candidate.interface) {
        Some(g) => {
            proof {
                lemma_global_index(globals@, candidate.interface@);
            }
            if g.version >= candidate.min_version {
                if g.version <= candidate.max_version {
                    Some(g.version)
                } else {
                    Some(candidate.max_version)
                }
            } else {
                None
            }
        },
        None => {
            proof {
                lemma_global_index(globals@, candidate.interface@);
                let fi = spec_global_index(globals@, candidate.interface@);
                if fi != -1 {
                    assert(globals@[fi].interface@ == candidate.interface@);
                }
            }
            None
        },
    }
}

/// Returns whether some advertised global has this interface name at
/// version at least `min_version`.
pub fn has_global(globals: &Vec<GlobalEntry>, interface: &String, min_version: u32) -> (r: bool)
    ensures
        r == spec_has_global(globals@, interface@, min_version),
{
    let mut i: usize = 0;
    while i < globals.len()
        invariant
            i <= globals@.len(),
            forall|j: int|
                0 <= j < i ==> !((#[trigger] globals@[j]).interface@ == interface@ && globals@[j].version
                    >= min_version),
        decreases globals@.len() - i,
    {
        if globals[i].interface == *interface && globals[i].version >= min_version {
            return true;
        }
        i = i + 1;
    }
    false
}

/// The interface names of the capture extension globals, native family
/// first, then portable.
pub open spec fn spec_capture_bindings_of(globals: Seq<GlobalEntry>) -> CaptureBindings {
    CaptureBindings {
        native_capture_manager: spec_has_global(globals, "zcosmic_screencopy_manager_v2"@, 1),
        native_output_sources: spec_has_global(
            globals,
            "zcosmic_output_image_source_manager_v1"@,
            1,
        ),
        native_toplevel_sources: spec_has_global(
            globals,
            "zcosmic_toplevel_image_source_manager_v1"@,
            1,
        ),
        native_workspace_sources: spec_has_global(
            globals,
            "zcosmic_workspace_image_source_manager_v2"@,
            1,
        ),
        portable_capture_manager: spec_has_global(
            globals,
            "ext_image_copy_capture_manager_v1"@,
            1,
        ),
        portable_output_sources: spec_has_global(
            globals,
            "ext_output_image_capture_source_manager_v1"@,
            1,
        ),
        portable_toplevel_sources: spec_has_global(
            globals,
            "ext_foreign_toplevel_image_capture_source_manager_v1"@,
            1,
        ),
    }
}

/// Records which capture extension globals the compositor advertises, per
/// family. Run once at startup; the result is passed around explicitly.
pub fn bind_capture_globals(globals: &Vec<GlobalEntry>) -> (r: CaptureBindings)
    ensures
        r == spec_capture_bindings_of(globals@),
{
    let native_capture_manager = has_global(
        globals,
        &"zcosmic_screencopy_manager_v2".to_owned(),
        1,
    );
    let native_output_sources = has_global(
        globals,
        &"zcosmic_output_image_source_manager_v1".to_owned(),
        1,
    );
    let native_toplevel_sources = has_global(
        globals,
        &"zcosmic_toplevel_image_source_manager_v1".to_owned(),
        1,
    );
    let native_workspace_sources = has_global(
        globals,
        &"zcosmic_workspace_image_source_manager_v2".to_owned(),
        1,
    );
    let portable_capture_manager = has_global(
        globals,
        &"ext_image_copy_capture_manager_v1".to_owned(),
        1,
    );
    let portable_output_sources = has_global(
        globals,
        &"ext_output_image_capture_source_manager_v1".to_owned(),
        1,
    );
    let portable_toplevel_sources = has_global(
        globals,
        &"ext_foreign_toplevel_image_capture_source_manager_v1".to_owned(),
        1,
    );
    CaptureBindings {
        native_capture_manager,
        native_output_sources,
        native_toplevel_sources,
        native_workspace_sources,
        portable_capture_manager,
        portable_output_sources,
        portable_toplevel_sources,
    }
}

} // verus!
