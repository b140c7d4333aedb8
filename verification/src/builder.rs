//! The sandbox filesystem: the plan that builds a root directory fit to
//! chroot into, and the plan that takes it down again.
//!
//! A root is an in-memory filesystem with read-only views of the host's
//! system directories, a handful of device files, a process filesystem and
//! writable `tmp` and `home`.

use crate::paths::{
    host_path, host_path_of, join, joined, lemma_host_path_under_root, lemma_joined_under_base,
};
use crate::steps::{
    failure_of, failure_text, lemma_first_failure_decides, lemma_no_fatal_step_no_failure,
    no_flags, path_of, plan_of, push_step, stops, MountFlags, Op, OpView, OutcomeView, Step,
    StepView,
};
use crate::text::concat;
use vstd::prelude::*;
use vstd::string::*;

verus! {

/// The host directories that every sandbox sees, in the order in which they
/// are mounted.
pub open spec fn host_directories() -> Seq<Seq<char>> {
    seq!["/bin"@, "/lib"@, "/lib64"@, "/usr"@, "/etc"@]
}

/// The device files under `/dev` that every sandbox sees.
pub open spec fn device_names() -> Seq<Seq<char>> {
    seq!["null"@, "zero"@, "urandom"@, "random"@]
}

/// Flags of the writable in-memory filesystem at the root.
pub open spec fn root_flags() -> MountFlags {
    MountFlags { no_suid: true, no_dev: true, ..no_flags() }
}

/// Flags of the bind mount that brings a host directory in.
pub open spec fn bind_tree_flags() -> MountFlags {
    MountFlags { bind: true, recursive: true, ..no_flags() }
}

/// Flags of the second mount call that turns such a view read-only.
pub open spec fn read_only_flags() -> MountFlags {
    MountFlags { bind: true, recursive: true, remount: true, read_only: true, ..no_flags() }
}

/// Flags of the bind mount of a single device file.
pub open spec fn bind_file_flags() -> MountFlags {
    MountFlags { bind: true, ..no_flags() }
}

/// Flags of the process filesystem.
pub open spec fn proc_flags() -> MountFlags {
    MountFlags { no_suid: true, no_dev: true, no_exec: true, ..no_flags() }
}

/// Where the device file `name` appears inside the sandbox at `root`.
pub open spec fn device_target(root: Seq<char>, name: Seq<char>) -> Seq<char> {
    joined(joined(root, "dev"@), name)
}

/// A step that always runs and whose failure ends the plan.
pub open spec fn required(op: OpView, label: Seq<char>) -> StepView {
    StepView { guard: None, op, label, fatal: true }
}

/// A step that runs only where `guard` exists and whose failure ends the plan.
pub open spec fn required_if(guard: Seq<char>, op: OpView, label: Seq<char>) -> StepView {
    StepView { guard: Some(guard), op, label, fatal: true }
}

/// The unmount of `target`, attempted only where `target` exists; its
/// failure is passed over.
pub open spec fn release(target: Seq<char>) -> StepView {
    StepView { guard: Some(target), op: OpView::Unmount { target }, label: "umount"@, fatal: false }
}

/// The steps that bring the host directory `dir` into the sandbox at `root`:
/// make the mount point, bind the directory with everything mounted below
/// it, and turn the view read-only. None runs where the host lacks `dir`.
pub open spec fn expose_directory(root: Seq<char>, dir: Seq<char>) -> Seq<StepView> {
    let target = host_path_of(root, dir);
    seq![
        required_if(dir, OpView::MakeDir { path: target }, "mkdir "@ + dir),
        required_if(
            dir,
            OpView::Mount {
                source: Some(dir),
                target,
                fstype: None,
                flags: bind_tree_flags(),
                data: None,
            },
            "bind mount "@ + dir,
        ),
        required_if(
            dir,
            OpView::Mount {
                source: None,
                target,
                fstype: None,
                flags: read_only_flags(),
                data: None,
            },
            "remount ro "@ + dir,
        ),
    ]
}

/// [`expose_directory`] for each of `dirs`, first to last.
pub open spec fn expose_directories(root: Seq<char>, dirs: Seq<Seq<char>>) -> Seq<StepView>
    decreases dirs.len(),
{
    if dirs.len() == 0 {
        Seq::empty()
    } else {
        expose_directories(root, dirs.drop_last()) + expose_directory(root, dirs.last())
    }
}

/// The steps that bring the host device `/dev/<name>` into the sandbox at
/// `root`: make an empty file and bind the device over it. Neither runs
/// where the host lacks the device.
pub open spec fn expose_device(root: Seq<char>, name: Seq<char>) -> Seq<StepView> {
    let host = "/dev/"@ + name;
    let target = device_target(root, name);
    seq![
        required_if(host, OpView::Touch { path: target }, "touch "@ + name),
        required_if(
            host,
            OpView::Mount {
                source: Some(host),
                target,
                fstype: None,
                flags: bind_file_flags(),
                data: None,
            },
            "bind mount "@ + name,
        ),
    ]
}

/// [`expose_device`] for each of `names`, first to last.
pub open spec fn expose_devices(root: Seq<char>, names: Seq<Seq<char>>) -> Seq<StepView>
    decreases names.len(),
{
    if names.len() == 0 {
        Seq::empty()
    } else {
        expose_devices(root, names.drop_last()) + expose_device(root, names.last())
    }
}

/// The unmounts of the views of `dirs` under `root`, last directory first.
pub open spec fn release_directories(root: Seq<char>, dirs: Seq<Seq<char>>) -> Seq<StepView>
    decreases dirs.len(),
{
    if dirs.len() == 0 {
        Seq::empty()
    } else {
        seq![release(host_path_of(root, dirs.last()))] + release_directories(
            root,
            dirs.drop_last(),
        )
    }
}

/// The unmounts of the devices `names` under `root`, first to last.
pub open spec fn release_devices(root: Seq<char>, names: Seq<Seq<char>>) -> Seq<StepView>
    decreases names.len(),
{
    if names.len() == 0 {
        Seq::empty()
    } else {
        release_devices(root, names.drop_last()) + seq![release(device_target(root, names.last()))]
    }
}

/// The two steps that end a teardown: unmount the root itself, then remove
/// its directory tree. They run under `guard`.
pub open spec fn remove_root(root: Seq<char>, guard: Option<Seq<char>>) -> Seq<StepView> {
    seq![
        StepView { guard, op: OpView::Unmount { target: root }, label: "umount"@, fatal: false },
        StepView { guard, op: OpView::RemoveTree { path: root }, label: "remove"@, fatal: false },
    ]
}

/// The teardown of the sandbox at `root`, with its last two steps under
/// `guard`: the process filesystem goes first, then the directory views in
/// the reverse of their mount order, then the devices, then the root.
pub open spec fn teardown_under(root: Seq<char>, guard: Option<Seq<char>>) -> Seq<StepView> {
    seq![release(joined(root, "proc"@))] + release_directories(root, host_directories())
        + release_devices(root, device_names()) + remove_root(root, guard)
}

/// The teardown of the sandbox at `root`. No step is fatal: whatever can be
/// unmounted is, and the tree is removed at the end in any case.
pub open spec fn teardown_plan(root: Seq<char>) -> Seq<StepView> {
    teardown_under(root, None)
}

/// The first steps of a build: make the root directory and mount the
/// in-memory filesystem on it.
pub open spec fn found_root(root: Seq<char>) -> Seq<StepView> {
    seq![
        required(OpView::MakeDir { path: root }, "mkdir"@),
        required(
            OpView::Mount {
                source: Some("tmpfs"@),
                target: root,
                fstype: Some("tmpfs"@),
                flags: root_flags(),
                data: Some("size=2G,mode=755"@),
            },
            "mount tmpfs"@,
        ),
    ]
}

/// The writable `tmp`, sticky and open to all, and the directory that the
/// device files go into.
pub open spec fn make_scratch(root: Seq<char>) -> Seq<StepView> {
    seq![
        required(OpView::MakeDir { path: joined(root, "tmp"@) }, "mkdir tmp"@),
        required(OpView::SetMode { path: joined(root, "tmp"@), mode: 0o1777 }, "chmod tmp"@),
        required(OpView::MakeDir { path: joined(root, "dev"@) }, "mkdir dev"@),
    ]
}

/// The last steps of a build: the process filesystem and `home`.
pub open spec fn finish_root(root: Seq<char>) -> Seq<StepView> {
    seq![
        required(OpView::MakeDir { path: joined(root, "proc"@) }, "mkdir proc"@),
        required(
            OpView::Mount {
                source: Some("proc"@),
                target: joined(root, "proc"@),
                fstype: Some("proc"@),
                flags: proc_flags(),
                data: None,
            },
            "mount proc"@,
        ),
        required(OpView::MakeDir { path: joined(root, "home"@) }, "mkdir home"@),
        required(OpView::SetMode { path: joined(root, "home"@), mode: 0o755 }, "chmod home"@),
    ]
}

/// The build of a sandbox at `root`.
///
/// Where `root` already exists it is torn down first. That is the teardown
/// plan with `root` as the guard of its last two steps; the others are
/// guarded by paths below `root` as it is. Every step after that is fatal,
/// and nothing is undone when one fails: the teardown plan copes with a
/// root that is only partly built.
pub open spec fn provision_plan(root: Seq<char>) -> Seq<StepView> {
    teardown_under(root, Some(root)) + found_root(root) + expose_directories(
        root,
        host_directories(),
    ) + make_scratch(root) + expose_devices(root, device_names()) + finish_root(root)
}

/// Where `step` mounts something, if it is a mount.
pub open spec fn mount_target(step: StepView) -> Option<Seq<char>> {
    match step.op {
        OpView::Mount { target, .. } => Some(target),
        _ => None,
    }
}

/// Some step of `steps` mounts something at `target`.
pub open spec fn mounts_at(steps: Seq<StepView>, target: Seq<char>) -> bool {
    exists|i: int| 0 <= i < steps.len() && mount_target(#[trigger] steps[i]) == Some(target)
}

/// Some step of `steps` unmounts `target`.
pub open spec fn unmounts_at(steps: Seq<StepView>, target: Seq<char>) -> bool {
    exists|i: int| 0 <= i < steps.len() && (#[trigger] steps[i]).op == (OpView::Unmount { target })
}

/// The step at position `i` of a teardown.
pub open spec fn teardown_step(root: Seq<char>, guard: Option<Seq<char>>, i: int) -> StepView {
    if i == 0 {
        release(joined(root, "proc"@))
    } else if i < 6 {
        release(host_path_of(root, host_directories()[5 - i]))
    } else if i < 10 {
        release(device_target(root, device_names()[i - 6]))
    } else {
        remove_root(root, guard)[i - 10]
    }
}

/// The step at position `i` of a build.
pub open spec fn provision_step(root: Seq<char>, i: int) -> StepView {
    if i < 12 {
        teardown_step(root, Some(root), i)
    } else if i < 14 {
        found_root(root)[i - 12]
    } else if i < 29 {
        expose_directory(root, host_directories()[(i - 14) / 3])[(i - 14) % 3]
    } else if i < 32 {
        make_scratch(root)[i - 29]
    } else if i < 40 {
        expose_device(root, device_names()[(i - 32) / 2])[(i - 32) % 2]
    } else {
        finish_root(root)[i - 40]
    }
}

/// The steps for a list of directories are the steps for each, three apiece
/// and in the order of the list.
pub proof fn lemma_expose_directories(root: Seq<char>, dirs: Seq<Seq<char>>)
    ensures
        expose_directories(root, dirs).len() == 3 * dirs.len(),
        forall|i: int|
            0 <= i < 3 * dirs.len() ==> #[trigger] expose_directories(root, dirs)[i]
                == expose_directory(root, dirs[i / 3])[i % 3],
    decreases dirs.len(),
{
    if dirs.len() > 0 {
        let init = dirs.drop_last();
        lemma_expose_directories(root, init);
        let all = expose_directories(root, dirs);
        assert forall|i: int| 0 <= i < 3 * dirs.len() implies #[trigger] all[i]
            == expose_directory(root, dirs[i / 3])[i % 3] by {
            if i < 3 * init.len() {
                assert(all[i] == expose_directories(root, init)[i]);
                assert(init[i / 3] == dirs[i / 3]);
            }
        }
    }
}

/// The steps for a list of devices are the steps for each, two apiece and
/// in the order of the list.
pub proof fn lemma_expose_devices(root: Seq<char>, names: Seq<Seq<char>>)
    ensures
        expose_devices(root, names).len() == 2 * names.len(),
        forall|i: int|
            0 <= i < 2 * names.len() ==> #[trigger] expose_devices(root, names)[i]
                == expose_device(root, names[i / 2])[i % 2],
    decreases names.len(),
{
    if names.len() > 0 {
        let init = names.drop_last();
        lemma_expose_devices(root, init);
        let all = expose_devices(root, names);
        assert forall|i: int| 0 <= i < 2 * names.len() implies #[trigger] all[i] == expose_device(
            root,
            names[i / 2],
        )[i % 2] by {
            if i < 2 * init.len() {
                assert(all[i] == expose_devices(root, init)[i]);
                assert(init[i / 2] == names[i / 2]);
            }
        }
    }
}

/// The directory views are unmounted one step apiece, the last of the list
/// first.
pub proof fn lemma_release_directories(root: Seq<char>, dirs: Seq<Seq<char>>)
    ensures
        release_directories(root, dirs).len() == dirs.len(),
        forall|i: int|
            0 <= i < dirs.len() ==> #[trigger] release_directories(root, dirs)[i] == release(
                host_path_of(root, dirs[dirs.len() - 1 - i]),
            ),
    decreases dirs.len(),
{
    if dirs.len() > 0 {
        let init = dirs.drop_last();
        lemma_release_directories(root, init);
        let all = release_directories(root, dirs);
        assert forall|i: int| 0 <= i < dirs.len() implies #[trigger] all[i] == release(
            host_path_of(root, dirs[dirs.len() - 1 - i]),
        ) by {
            if i > 0 {
                assert(all[i] == release_directories(root, init)[i - 1]);
                assert(init[init.len() - 1 - (i - 1)] == dirs[dirs.len() - 1 - i]);
            }
        }
    }
}

/// The devices are unmounted one step apiece, in the order of the list.
pub proof fn lemma_release_devices(root: Seq<char>, names: Seq<Seq<char>>)
    ensures
        release_devices(root, names).len() == names.len(),
        forall|i: int|
            0 <= i < names.len() ==> #[trigger] release_devices(root, names)[i] == release(
                device_target(root, names[i]),
            ),
    decreases names.len(),
{
    if names.len() > 0 {
        let init = names.drop_last();
        lemma_release_devices(root, init);
        let all = release_devices(root, names);
        assert forall|i: int| 0 <= i < names.len() implies #[trigger] all[i] == release(
            device_target(root, names[i]),
        ) by {
            if i < init.len() {
                assert(all[i] == release_devices(root, init)[i]);
                assert(init[i] == names[i]);
            }
        }
    }
}

/// A teardown has twelve steps: the process filesystem, the five directory
/// views from the last to the first, the four devices, the root and the
/// removal of its tree.
pub proof fn lemma_teardown_layout(root: Seq<char>, guard: Option<Seq<char>>)
    ensures
        teardown_under(root, guard).len() == 12,
        forall|i: int|
            0 <= i < 12 ==> #[trigger] teardown_under(root, guard)[i] == teardown_step(
                root,
                guard,
                i,
            ),
{
    lemma_release_directories(root, host_directories());
    lemma_release_devices(root, device_names());
    let dirs = release_directories(root, host_directories());
    let devs = release_devices(root, device_names());
    let all = teardown_under(root, guard);
    assert forall|i: int| 0 <= i < 12 implies #[trigger] all[i] == teardown_step(
        root,
        guard,
        i,
    ) by {
        if 1 <= i < 6 {
            assert(all[i] == dirs[i - 1]);
        } else if 6 <= i < 10 {
            assert(all[i] == devs[i - 6]);
        }
    }
}

/// A build has forty-four steps: a teardown, the root, three steps for each
/// of the five directories, `tmp` and `dev`, two steps for each of the four
/// devices, the process filesystem and `home`.
pub proof fn lemma_provision_layout(root: Seq<char>)
    ensures
        provision_plan(root).len() == 44,
        forall|i: int|
            0 <= i < 44 ==> #[trigger] provision_plan(root)[i] == provision_step(root, i),
{
    lemma_teardown_layout(root, Some(root));
    lemma_expose_directories(root, host_directories());
    lemma_expose_devices(root, device_names());
    let build = provision_plan(root);
    let first = teardown_under(root, Some(root));
    let views = expose_directories(root, host_directories());
    let files = expose_devices(root, device_names());
    assert forall|i: int| 0 <= i < 44 implies #[trigger] build[i] == provision_step(root, i) by {
        if i < 12 {
            assert(build[i] == first[i]);
        } else if 14 <= i < 29 {
            assert(build[i] == views[i - 14]);
        } else if 32 <= i < 40 {
            assert(build[i] == files[i - 32]);
        }
    }
}

/// A teardown never fails: none of its steps is fatal, so it runs to its
/// end whatever becomes of them.
pub proof fn lemma_teardown_never_fails(
    root: Seq<char>,
    guard: Option<Seq<char>>,
    outcomes: Seq<OutcomeView>,
)
    ensures
        forall|i: int| 0 <= i < 12 ==> !(#[trigger] teardown_under(root, guard)[i]).fatal,
        failure_of(teardown_under(root, guard), outcomes) is None,
{
    lemma_teardown_layout(root, guard);
    lemma_no_fatal_step_no_failure(teardown_under(root, guard), outcomes);
}

/// A teardown ends by unmounting the root and removing its tree, in that
/// order; every step before those unmounts a path below the root, and only
/// where that path exists.
pub proof fn lemma_teardown_ends_with_root(root: Seq<char>)
    ensures
        teardown_plan(root)[10].op == (OpView::Unmount { target: root }),
        teardown_plan(root)[11].op == (OpView::RemoveTree { path: root }),
        teardown_plan(root)[10].guard is None,
        teardown_plan(root)[11].guard is None,
        forall|i: int|
            0 <= i < 10 ==> (#[trigger] teardown_plan(root)[i]).guard is Some && teardown_plan(
                root,
            )[i] == release(teardown_plan(root)[i].guard->0),
{
    lemma_teardown_layout(root, None);
}

/// Every mount that a build makes is one that a teardown unmounts: the
/// root, each directory view, each device file and the process filesystem.
pub proof fn lemma_teardown_covers_provision(root: Seq<char>, target: Seq<char>)
    requires
        mounts_at(provision_plan(root), target),
    ensures
        unmounts_at(teardown_plan(root), target),
{
    lemma_provision_layout(root);
    lemma_teardown_layout(root, None);
    let build = provision_plan(root);
    let down = teardown_plan(root);
    let i = choose|i: int| 0 <= i < build.len() && mount_target(#[trigger] build[i]) == Some(target);
    assert(build[i] == provision_step(root, i));
    let j = if i < 14 {
        10
    } else if i < 29 {
        5 - (i - 14) / 3
    } else if i < 40 {
        6 + (i - 32) / 2
    } else {
        0
    };
    assert(down[j] == teardown_step(root, None, j));
    assert(down[j].op == (OpView::Unmount { target }));
}

/// Every host directory that a build brings in is turned read-only by the
/// very next step: a recursive bind mount is followed by the read-only
/// remount of the same target under the same guard.
pub proof fn lemma_views_are_read_only(root: Seq<char>, i: int)
    requires
        0 <= i < provision_plan(root).len(),
        provision_plan(root)[i].op matches OpView::Mount { flags, .. } && flags
            == bind_tree_flags(),
    ensures
        i + 1 < provision_plan(root).len(),
        provision_plan(root)[i + 1].guard == provision_plan(root)[i].guard,
        provision_plan(root)[i + 1].fatal,
        provision_plan(root)[i + 1].op == (OpView::Mount {
            source: None,
            target: mount_target(provision_plan(root)[i])->0,
            fstype: None,
            flags: read_only_flags(),
            data: None,
        }),
{
    lemma_provision_layout(root);
    let build = provision_plan(root);
    assert(build[i] == provision_step(root, i));
    assert(14 <= i < 29 && (i - 14) % 3 == 1);
    assert(build[i + 1] == provision_step(root, i + 1));
}

/// Neither a build nor a teardown works on a path outside the root: every
/// path that a step changes, and every mount point, begins with the root.
/// The host is only ever read, as the source of a bind mount.
pub proof fn lemma_plans_stay_under_root(root: Seq<char>)
    ensures
        forall|i: int|
            0 <= i < provision_plan(root).len() ==> root.is_prefix_of(
                path_of((#[trigger] provision_plan(root)[i]).op),
            ),
        forall|i: int|
            0 <= i < teardown_plan(root).len() ==> root.is_prefix_of(
                path_of((#[trigger] teardown_plan(root)[i]).op),
            ),
{
    let dirs = host_directories();
    let names = device_names();
    reveal_strlit("tmp");
    reveal_strlit("dev");
    reveal_strlit("proc");
    reveal_strlit("home");
    reveal_strlit("null");
    reveal_strlit("zero");
    reveal_strlit("urandom");
    reveal_strlit("random");
    lemma_joined_under_base(root, "tmp"@);
    lemma_joined_under_base(root, "dev"@);
    lemma_joined_under_base(root, "proc"@);
    lemma_joined_under_base(root, "home"@);
    assert(root.is_prefix_of(root)) by {
        assert(root.subrange(0, root.len() as int) =~= root);
    }
    assert forall|k: int| 0 <= k < 5 implies root.is_prefix_of(
        host_path_of(root, #[trigger] dirs[k]),
    ) by {
        lemma_host_path_under_root(root, dirs[k]);
    }
    assert forall|k: int| 0 <= k < 4 implies root.is_prefix_of(
        device_target(root, #[trigger] names[k]),
    ) by {
        let dev = joined(root, "dev"@);
        lemma_joined_under_base(dev, names[k]);
        let full = device_target(root, names[k]);
        assert(full.subrange(0, root.len() as int) =~= dev.subrange(0, root.len() as int));
    }
    assert forall|g: Option<Seq<char>>, i: int| 0 <= i < 12 implies root.is_prefix_of(
        path_of(#[trigger] teardown_step(root, g, i).op),
    ) by {
        if 1 <= i < 6 {
            assert(root.is_prefix_of(host_path_of(root, dirs[5 - i])));
        } else if 6 <= i < 10 {
            assert(root.is_prefix_of(device_target(root, names[i - 6])));
        }
    }
    lemma_teardown_layout(root, None);
    lemma_provision_layout(root);
    let build = provision_plan(root);
    let down = teardown_plan(root);
    assert forall|i: int| 0 <= i < 12 implies root.is_prefix_of(path_of((#[trigger] down[i]).op)) by {
        assert(down[i] == teardown_step(root, None, i));
    }
    assert forall|i: int| 0 <= i < 44 implies root.is_prefix_of(path_of((#[trigger] build[i]).op)) by {
        assert(build[i] == provision_step(root, i));
        if i < 12 {
            assert(root.is_prefix_of(path_of(teardown_step(root, Some(root), i).op)));
        } else if 14 <= i < 29 {
            assert(root.is_prefix_of(host_path_of(root, dirs[(i - 14) / 3])));
        } else if 32 <= i < 40 {
            assert(root.is_prefix_of(device_target(root, names[(i - 32) / 2])));
        }
    }
}

/// A build fails with the first step of its own that fails, under that
/// step's label: past the teardown that it begins with, every step is fatal.
pub proof fn lemma_build_stops_at_first_failure(
    root: Seq<char>,
    outcomes: Seq<OutcomeView>,
    at: int,
)
    requires
        12 <= at < provision_plan(root).len(),
        outcomes[at] is Failed,
        forall|i: int| 12 <= i < at ==> !(#[trigger] outcomes[i] is Failed),
    ensures
        provision_plan(root)[at].fatal,
        failure_of(provision_plan(root), outcomes) == Some(
            failure_text(provision_plan(root)[at].label, outcomes[at]->Failed_0),
        ),
{
    lemma_provision_layout(root);
    let build = provision_plan(root);
    assert forall|i: int| 0 <= i < 44 implies (#[trigger] build[i]).fatal == (i >= 12) by {
        assert(build[i] == provision_step(root, i));
    }
    lemma_first_failure_decides(build, outcomes, 0);
    assert(stops(build, at, outcomes[at]));
    assert forall|j: int| 0 <= j < at implies !stops(build, j, #[trigger] outcomes[j]) by {
        if j < 12 {
            assert(!build[j].fatal);
        }
    }
}

/// The texts of a list of string slices.
pub open spec fn texts(items: Seq<&'static str>) -> Seq<Seq<char>> {
    items.map_values(|s: &'static str| s@)
}

/// The host directories that every sandbox sees.
pub fn host_directory_list() -> (dirs: Vec<&'static str>)
    ensures
        texts(dirs@) == host_directories(),
{
    let dirs = vec!["/bin", "/lib", "/lib64", "/usr", "/etc"];
    assert(texts(dirs@) =~= host_directories());
    dirs
}

/// The device files that every sandbox sees.
pub fn device_name_list() -> (names: Vec<&'static str>)
    ensures
        texts(names@) == device_names(),
{
    let names = vec!["null", "zero", "urandom", "random"];
    assert(texts(names@) =~= device_names());
    names
}

fn release_step(target: String) -> (step: Step)
    ensures
        step@ == release(target@),
{
    Step {
        guard: Some(target.clone()),
        op: Op::Unmount { target },
        label: String::from_str("umount"),
        fatal: false,
    }
}

fn add_expose_directory(steps: &mut Vec<Step>, root: &str, dir: &str)
    ensures
        plan_of(final(steps)@) == plan_of(old(steps)@) + expose_directory(root@, dir@),
{
    let target = host_path(root, dir);
    push_step(
        steps,
        Step {
            guard: Some(String::from_str(dir)),
            op: Op::MakeDir { path: target.clone() },
            label: concat("mkdir ", dir),
            fatal: true,
        },
    );
    push_step(
        steps,
        Step {
            guard: Some(String::from_str(dir)),
            op: Op::Mount {
                source: Some(String::from_str(dir)),
                target: target.clone(),
                fstype: None,
                flags: MountFlags {
                    bind: true,
                    recursive: true,
                    remount: false,
                    read_only: false,
                    no_suid: false,
                    no_dev: false,
                    no_exec: false,
                },
                data: None,
            },
            label: concat("bind mount ", dir),
            fatal: true,
        },
    );
    push_step(
        steps,
        Step {
            guard: Some(String::from_str(dir)),
            op: Op::Mount {
                source: None,
                target,
                fstype: None,
                flags: MountFlags {
                    bind: true,
                    recursive: true,
                    remount: true,
                    read_only: true,
                    no_suid: false,
                    no_dev: false,
                    no_exec: false,
                },
                data: None,
            },
            label: concat("remount ro ", dir),
            fatal: true,
        },
    );
    assert(plan_of(steps@) =~= plan_of(old(steps)@) + expose_directory(root@, dir@));
}

fn add_expose_device(steps: &mut Vec<Step>, root: &str, name: &str)
    ensures
        plan_of(final(steps)@) == plan_of(old(steps)@) + expose_device(root@, name@),
{
    let host = concat("/dev/", name);
    let dev_dir = join(root, "dev");
    let target = join(dev_dir.as_str(), name);
    push_step(
        steps,
        Step {
            guard: Some(host.clone()),
            op: Op::Touch { path: target.clone() },
            label: concat("touch ", name),
            fatal: true,
        },
    );
    push_step(
        steps,
        Step {
            guard: Some(host.clone()),
            op: Op::Mount {
                source: Some(host),
                target,
                fstype: None,
                flags: MountFlags {
                    bind: true,
                    recursive: false,
                    remount: false,
                    read_only: false,
                    no_suid: false,
                    no_dev: false,
                    no_exec: false,
                },
                data: None,
            },
            label: concat("bind mount ", name),
            fatal: true,
        },
    );
    assert(plan_of(steps@) =~= plan_of(old(steps)@) + expose_device(root@, name@));
}

fn add_expose_directories(steps: &mut Vec<Step>, root: &str, dirs: &Vec<&'static str>)
    ensures
        plan_of(final(steps)@) == plan_of(old(steps)@) + expose_directories(root@, texts(dirs@)),
{
    let ghost before = plan_of(steps@);
    let ghost names = texts(dirs@);
    let mut i: usize = 0;
    assert(names.take(0) =~= Seq::<Seq<char>>::empty());
    assert(before + Seq::<StepView>::empty() =~= before);
    while i < dirs.len()
        invariant
            i <= dirs.len(),
            names == texts(dirs@),
            plan_of(steps@) == before + expose_directories(root@, names.take(i as int)),
        decreases dirs.len() - i,
    {
        add_expose_directory(steps, root, dirs[i]);
        proof {
            let next = names.take(i as int + 1);
            assert(next.drop_last() =~= names.take(i as int));
            assert(next.last() == dirs@[i as int]@);
            assert(before + expose_directories(root@, names.take(i as int)) + expose_directory(
                root@,
                dirs@[i as int]@,
            ) =~= before + expose_directories(root@, next));
        }
        i += 1;
    }
    assert(names.take(dirs.len() as int) =~= names);
}

fn add_expose_devices(steps: &mut Vec<Step>, root: &str, devices: &Vec<&'static str>)
    ensures
        plan_of(final(steps)@) == plan_of(old(steps)@) + expose_devices(root@, texts(devices@)),
{
    let ghost before = plan_of(steps@);
    let ghost names = texts(devices@);
    let mut i: usize = 0;
    assert(names.take(0) =~= Seq::<Seq<char>>::empty());
    assert(before + Seq::<StepView>::empty() =~= before);
    while i < devices.len()
        invariant
            i <= devices.len(),
            names == texts(devices@),
            plan_of(steps@) == before + expose_devices(root@, names.take(i as int)),
        decreases devices.len() - i,
    {
        add_expose_device(steps, root, devices[i]);
        proof {
            let next = names.take(i as int + 1);
            assert(next.drop_last() =~= names.take(i as int));
            assert(next.last() == devices@[i as int]@);
            assert(before + expose_devices(root@, names.take(i as int)) + expose_device(
                root@,
                devices@[i as int]@,
            ) =~= before + expose_devices(root@, next));
        }
        i += 1;
    }
    assert(names.take(devices.len() as int) =~= names);
}

fn add_release_directories(steps: &mut Vec<Step>, root: &str, dirs: &Vec<&'static str>)
    ensures
        plan_of(final(steps)@) == plan_of(old(steps)@) + release_directories(root@, texts(dirs@)),
{
    let ghost before = plan_of(steps@);
    let ghost names = texts(dirs@);
    let mut left: usize = dirs.len();
    assert(names.take(left as int) =~= names);
    while left > 0
        invariant
            left <= dirs.len(),
            names == texts(dirs@),
            plan_of(steps@) + release_directories(root@, names.take(left as int)) == before
                + release_directories(root@, names),
        decreases left,
    {
        let ghost rest = names.take(left as int);
        left -= 1;
        let ghost so_far = plan_of(steps@);
        push_step(steps, release_step(host_path(root, dirs[left])));
        proof {
            assert(rest.drop_last() =~= names.take(left as int));
            assert(rest.last() == dirs@[left as int]@);
            assert(so_far + (seq![release(host_path_of(root@, rest.last()))] + release_directories(
                root@,
                rest.drop_last(),
            )) =~= so_far.push(release(host_path_of(root@, rest.last()))) + release_directories(
                root@,
                rest.drop_last(),
            ));
        }
    }
    assert(names.take(0) =~= Seq::<Seq<char>>::empty());
    assert(plan_of(steps@) + Seq::<StepView>::empty() =~= plan_of(steps@));
}

fn add_release_devices(steps: &mut Vec<Step>, root: &str, devices: &Vec<&'static str>)
    ensures
        plan_of(final(steps)@) == plan_of(old(steps)@) + release_devices(root@, texts(devices@)),
{
    let ghost before = plan_of(steps@);
    let ghost names = texts(devices@);
    let dev_dir = join(root, "dev");
    let mut i: usize = 0;
    assert(names.take(0) =~= Seq::<Seq<char>>::empty());
    assert(before + Seq::<StepView>::empty() =~= before);
    while i < devices.len()
        invariant
            i <= devices.len(),
            names == texts(devices@),
            dev_dir@ == joined(root@, "dev"@),
            plan_of(steps@) == before + release_devices(root@, names.take(i as int)),
        decreases devices.len() - i,
    {
        push_step(steps, release_step(join(dev_dir.as_str(), devices[i])));
        proof {
            let next = names.take(i as int + 1);
            assert(next.drop_last() =~= names.take(i as int));
            assert(next.last() == devices@[i as int]@);
            assert((before + release_devices(root@, names.take(i as int))).push(
                release(device_target(root@, devices@[i as int]@)),
            ) =~= before + release_devices(root@, next));
        }
        i += 1;
    }
    assert(names.take(devices.len() as int) =~= names);
}

fn add_teardown(steps: &mut Vec<Step>, root: &str, nested: bool)
    ensures
        plan_of(final(steps)@) == plan_of(old(steps)@) + teardown_under(
            root@,
            if nested {
                Some(root@)
            } else {
                None
            },
        ),
{
    let ghost before = plan_of(steps@);
    let ghost guard = if nested {
        Some(root@)
    } else {
        None
    };
    push_step(steps, release_step(join(root, "proc")));
    let dirs = host_directory_list();
    add_release_directories(steps, root, &dirs);
    let devices = device_name_list();
    add_release_devices(steps, root, &devices);
    push_step(
        steps,
        Step {
            guard: if nested {
                Some(String::from_str(root))
            } else {
                None
            },
            op: Op::Unmount { target: String::from_str(root) },
            label: String::from_str("umount"),
            fatal: false,
        },
    );
    push_step(
        steps,
        Step {
            guard: if nested {
                Some(String::from_str(root))
            } else {
                None
            },
            op: Op::RemoveTree { path: String::from_str(root) },
            label: String::from_str("remove"),
            fatal: false,
        },
    );
    assert(plan_of(steps@) =~= before + teardown_under(root@, guard));
}

/// The steps that take down the sandbox at `root`.
pub fn teardown_steps(root: &str) -> (steps: Vec<Step>)
    ensures
        plan_of(steps@) == teardown_plan(root@),
{
    let mut steps: Vec<Step> = Vec::new();
    assert(plan_of(steps@) =~= Seq::<StepView>::empty());
    add_teardown(&mut steps, root, false);
    assert(Seq::<StepView>::empty() + teardown_plan(root@) =~= teardown_plan(root@));
    steps
}

/// The steps that build a sandbox at `root`.
pub fn provision_steps(root: &str) -> (steps: Vec<Step>)
    ensures
        plan_of(steps@) == provision_plan(root@),
{
    let mut steps: Vec<Step> = Vec::new();
    assert(plan_of(steps@) =~= Seq::<StepView>::empty());
    add_teardown(&mut steps, root, true);
    assert(Seq::<StepView>::empty() + teardown_under(root@, Some(root@)) =~= teardown_under(
        root@,
        Some(root@),
    ));
    push_step(
        &mut steps,
        Step {
            guard: None,
            op: Op::MakeDir { path: String::from_str(root) },
            label: String::from_str("mkdir"),
            fatal: true,
        },
    );
    push_step(
        &mut steps,
        Step {
            guard: None,
            op: Op::Mount {
                source: Some(String::from_str("tmpfs")),
                target: String::from_str(root),
                fstype: Some(String::from_str("tmpfs")),
                flags: MountFlags {
                    bind: false,
                    recursive: false,
                    remount: false,
                    read_only: false,
                    no_suid: true,
                    no_dev: true,
                    no_exec: false,
                },
                data: Some(String::from_str("size=2G,mode=755")),
            },
            label: String::from_str("mount tmpfs"),
            fatal: true,
        },
    );
    assert(plan_of(steps@) =~= teardown_under(root@, Some(root@)) + found_root(root@));
    let dirs = host_directory_list();
    add_expose_directories(&mut steps, root, &dirs);
    let ghost exposed = plan_of(steps@);
    let tmp = join(root, "tmp");
    push_step(
        &mut steps,
        Step {
            guard: None,
            op: Op::MakeDir { path: tmp.clone() },
            label: String::from_str("mkdir tmp"),
            fatal: true,
        },
    );
    push_step(
        &mut steps,
        Step {
            guard: None,
            op: Op::SetMode { path: tmp, mode: 0o1777 },
            label: String::from_str("chmod tmp"),
            fatal: true,
        },
    );
    push_step(
        &mut steps,
        Step {
            guard: None,
            op: Op::MakeDir { path: join(root, "dev") },
            label: String::from_str("mkdir dev"),
            fatal: true,
        },
    );
    assert(plan_of(steps@) =~= exposed + make_scratch(root@));
    let devices = device_name_list();
    add_expose_devices(&mut steps, root, &devices);
    let ghost with_devices = plan_of(steps@);
    let proc_dir = join(root, "proc");
    push_step(
        &mut steps,
        Step {
            guard: None,
            op: Op::MakeDir { path: proc_dir.clone() },
            label: String::from_str("mkdir proc"),
            fatal: true,
        },
    );
    push_step(
        &mut steps,
        Step {
            guard: None,
            op: Op::Mount {
                source: Some(String::from_str("proc")),
                target: proc_dir,
                fstype: Some(String::from_str("proc")),
                flags: MountFlags {
                    bind: false,
                    recursive: false,
                    remount: false,
                    read_only: false,
                    no_suid: true,
                    no_dev: true,
                    no_exec: true,
                },
                data: None,
            },
            label: String::from_str("mount proc"),
            fatal: true,
        },
    );
    let home = join(root, "home");
    push_step(
        &mut steps,
        Step {
            guard: None,
            op: Op::MakeDir { path: home.clone() },
            label: String::from_str("mkdir home"),
            fatal: true,
        },
    );
    push_step(
        &mut steps,
        Step {
            guard: None,
            op: Op::SetMode { path: home, mode: 0o755 },
            label: String::from_str("chmod home"),
            fatal: true,
        },
    );
    assert(plan_of(steps@) =~= with_devices + finish_root(root@));
    steps
}

} // verus!
