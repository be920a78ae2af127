//! The order in which the test groups of a disk are staged, and what a staging run
//! leaves behind: the plan of groups to try, whether a group gets its runtime, and
//! the queue written once the groups are in.
use vstd::prelude::*;
use crate::ext4::Ext4Fs;
use crate::stage::{is_regular_path, regular_at, BasicFlavor};

verus! {

/// A group that staging may install, one variant per place on the disk it looks.
#[derive(PartialEq, Eq, Structural, Clone, Copy, Debug)]
pub enum GroupJob {
    /// The glibc basic group.
    BasicGlibc,
    /// The musl basic group.
    BasicMusl,
    /// The basic group at the root, staged only where neither named one is there.
    BasicRoot,
    /// The glibc busybox group.
    BusyboxGlibc,
    /// The musl busybox group.
    BusyboxMusl,
    /// The busybox group at the root.
    BusyboxRoot,
    /// The glibc lua group.
    LuaGlibc,
    /// The musl lua group.
    LuaMusl,
    /// The lua group at the root.
    LuaRoot,
    /// The glibc libc-bench group.
    LibcbenchGlibc,
    /// The musl libc-bench group.
    LibcbenchMusl,
    /// The libc-bench group at the root.
    LibcbenchRoot,
    /// The musl libc-test group.
    LibctestMusl,
    /// The musl libc-test group kept in its own directory.
    LibctestMuslNested,
    /// The glibc LTP group.
    LtpGlibc,
    /// The musl LTP group.
    LtpMusl,
    /// The glibc lmbench group.
    LmbenchGlibc,
    /// The musl lmbench group.
    LmbenchMusl,
}

/// The disk path a job looks at: its script, or for LTP its case directory.
pub open spec fn job_source(j: GroupJob) -> Seq<u8> {
    match j {
        GroupJob::BasicGlibc => seq![103u8, 108u8, 105u8, 98u8, 99u8, 47u8, 98u8, 97u8, 115u8, 105u8, 99u8, 95u8, 116u8, 101u8, 115u8, 116u8, 99u8, 111u8, 100u8, 101u8, 46u8, 115u8, 104u8],
        GroupJob::BasicMusl => seq![109u8, 117u8, 115u8, 108u8, 47u8, 98u8, 97u8, 115u8, 105u8, 99u8, 95u8, 116u8, 101u8, 115u8, 116u8, 99u8, 111u8, 100u8, 101u8, 46u8, 115u8, 104u8],
        GroupJob::BasicRoot => seq![98u8, 97u8, 115u8, 105u8, 99u8, 95u8, 116u8, 101u8, 115u8, 116u8, 99u8, 111u8, 100u8, 101u8, 46u8, 115u8, 104u8],
        GroupJob::BusyboxGlibc => seq![103u8, 108u8, 105u8, 98u8, 99u8, 47u8, 98u8, 117u8, 115u8, 121u8, 98u8, 111u8, 120u8, 95u8, 116u8, 101u8, 115u8, 116u8, 99u8, 111u8, 100u8, 101u8, 46u8, 115u8, 104u8],
        GroupJob::BusyboxMusl => seq![109u8, 117u8, 115u8, 108u8, 47u8, 98u8, 117u8, 115u8, 121u8, 98u8, 111u8, 120u8, 95u8, 116u8, 101u8, 115u8, 116u8, 99u8, 111u8, 100u8, 101u8, 46u8, 115u8, 104u8],
        GroupJob::BusyboxRoot => seq![98u8, 117u8, 115u8, 121u8, 98u8, 111u8, 120u8, 95u8, 116u8, 101u8, 115u8, 116u8, 99u8, 111u8, 100u8, 101u8, 46u8, 115u8, 104u8],
        GroupJob::LuaGlibc => seq![103u8, 108u8, 105u8, 98u8, 99u8, 47u8, 108u8, 117u8, 97u8, 95u8, 116u8, 101u8, 115u8, 116u8, 99u8, 111u8, 100u8, 101u8, 46u8, 115u8, 104u8],
        GroupJob::LuaMusl => seq![109u8, 117u8, 115u8, 108u8, 47u8, 108u8, 117u8, 97u8, 95u8, 116u8, 101u8, 115u8, 116u8, 99u8, 111u8, 100u8, 101u8, 46u8, 115u8, 104u8],
        GroupJob::LuaRoot => seq![108u8, 117u8, 97u8, 95u8, 116u8, 101u8, 115u8, 116u8, 99u8, 111u8, 100u8, 101u8, 46u8, 115u8, 104u8],
        GroupJob::LibcbenchGlibc => seq![103u8, 108u8, 105u8, 98u8, 99u8, 47u8, 108u8, 105u8, 98u8, 99u8, 98u8, 101u8, 110u8, 99u8, 104u8, 95u8, 116u8, 101u8, 115u8, 116u8, 99u8, 111u8, 100u8, 101u8, 46u8, 115u8, 104u8],
        GroupJob::LibcbenchMusl => seq![109u8, 117u8, 115u8, 108u8, 47u8, 108u8, 105u8, 98u8, 99u8, 98u8, 101u8, 110u8, 99u8, 104u8, 95u8, 116u8, 101u8, 115u8, 116u8, 99u8, 111u8, 100u8, 101u8, 46u8, 115u8, 104u8],
        GroupJob::LibcbenchRoot => seq![108u8, 105u8, 98u8, 99u8, 98u8, 101u8, 110u8, 99u8, 104u8, 95u8, 116u8, 101u8, 115u8, 116u8, 99u8, 111u8, 100u8, 101u8, 46u8, 115u8, 104u8],
        GroupJob::LibctestMusl => seq![109u8, 117u8, 115u8, 108u8, 47u8, 108u8, 105u8, 98u8, 99u8, 116u8, 101u8, 115u8, 116u8, 95u8, 116u8, 101u8, 115u8, 116u8, 99u8, 111u8, 100u8, 101u8, 46u8, 115u8, 104u8],
        GroupJob::LibctestMuslNested => seq![109u8, 117u8, 115u8, 108u8, 47u8, 108u8, 105u8, 98u8, 99u8, 116u8, 101u8, 115u8, 116u8, 47u8, 108u8, 105u8, 98u8, 99u8, 116u8, 101u8, 115u8, 116u8, 95u8, 116u8, 101u8, 115u8, 116u8, 99u8, 111u8, 100u8, 101u8, 46u8, 115u8, 104u8],
        GroupJob::LtpGlibc => seq![103u8, 108u8, 105u8, 98u8, 99u8, 47u8, 108u8, 116u8, 112u8, 47u8, 116u8, 101u8, 115u8, 116u8, 99u8, 97u8, 115u8, 101u8, 115u8, 47u8, 98u8, 105u8, 110u8],
        GroupJob::LtpMusl => seq![109u8, 117u8, 115u8, 108u8, 47u8, 108u8, 116u8, 112u8, 47u8, 116u8, 101u8, 115u8, 116u8, 99u8, 97u8, 115u8, 101u8, 115u8, 47u8, 98u8, 105u8, 110u8],
        GroupJob::LmbenchGlibc => seq![103u8, 108u8, 105u8, 98u8, 99u8, 47u8, 108u8, 109u8, 98u8, 101u8, 110u8, 99u8, 104u8, 95u8, 116u8, 101u8, 115u8, 116u8, 99u8, 111u8, 100u8, 101u8, 46u8, 115u8, 104u8],
        GroupJob::LmbenchMusl => seq![109u8, 117u8, 115u8, 108u8, 47u8, 108u8, 109u8, 98u8, 101u8, 110u8, 99u8, 104u8, 95u8, 116u8, 101u8, 115u8, 116u8, 99u8, 111u8, 100u8, 101u8, 46u8, 115u8, 104u8],
    }
}

/// The directory a job's group is staged into.
pub open spec fn job_dir(j: GroupJob) -> Seq<u8> {
    match j {
        GroupJob::BasicGlibc => seq![111u8, 115u8, 99u8, 111u8, 109u8, 112u8, 45u8, 103u8, 108u8, 105u8, 98u8, 99u8],
        GroupJob::BasicMusl => seq![111u8, 115u8, 99u8, 111u8, 109u8, 112u8, 45u8, 109u8, 117u8, 115u8, 108u8],
        GroupJob::BasicRoot => seq![111u8, 115u8, 99u8, 111u8, 109u8, 112u8, 45u8, 98u8, 97u8, 115u8, 105u8, 99u8],
        GroupJob::BusyboxGlibc => seq![111u8, 115u8, 99u8, 111u8, 109u8, 112u8, 45u8, 98u8, 117u8, 115u8, 121u8, 98u8, 111u8, 120u8, 45u8, 103u8, 108u8, 105u8, 98u8, 99u8],
        GroupJob::BusyboxMusl => seq![111u8, 115u8, 99u8, 111u8, 109u8, 112u8, 45u8, 98u8, 117u8, 115u8, 121u8, 98u8, 111u8, 120u8, 45u8, 109u8, 117u8, 115u8, 108u8],
        GroupJob::BusyboxRoot => seq![111u8, 115u8, 99u8, 111u8, 109u8, 112u8, 45u8, 98u8, 117u8, 115u8, 121u8, 98u8, 111u8, 120u8],
        GroupJob::LuaGlibc => seq![111u8, 115u8, 99u8, 111u8, 109u8, 112u8, 45u8, 108u8, 117u8, 97u8, 45u8, 103u8, 108u8, 105u8, 98u8, 99u8],
        GroupJob::LuaMusl => seq![111u8, 115u8, 99u8, 111u8, 109u8, 112u8, 45u8, 108u8, 117u8, 97u8, 45u8, 109u8, 117u8, 115u8, 108u8],
        GroupJob::LuaRoot => seq![111u8, 115u8, 99u8, 111u8, 109u8, 112u8, 45u8, 108u8, 117u8, 97u8],
        GroupJob::LibcbenchGlibc => seq![111u8, 115u8, 99u8, 111u8, 109u8, 112u8, 45u8, 108u8, 105u8, 98u8, 99u8, 98u8, 101u8, 110u8, 99u8, 104u8, 45u8, 103u8, 108u8, 105u8, 98u8, 99u8],
        GroupJob::LibcbenchMusl => seq![111u8, 115u8, 99u8, 111u8, 109u8, 112u8, 45u8, 108u8, 105u8, 98u8, 99u8, 98u8, 101u8, 110u8, 99u8, 104u8, 45u8, 109u8, 117u8, 115u8, 108u8],
        GroupJob::LibcbenchRoot => seq![111u8, 115u8, 99u8, 111u8, 109u8, 112u8, 45u8, 108u8, 105u8, 98u8, 99u8, 98u8, 101u8, 110u8, 99u8, 104u8],
        GroupJob::LibctestMusl => seq![111u8, 115u8, 99u8, 111u8, 109u8, 112u8, 45u8, 108u8, 105u8, 98u8, 99u8, 116u8, 101u8, 115u8, 116u8, 45u8, 109u8, 117u8, 115u8, 108u8],
        GroupJob::LibctestMuslNested => seq![111u8, 115u8, 99u8, 111u8, 109u8, 112u8, 45u8, 108u8, 105u8, 98u8, 99u8, 116u8, 101u8, 115u8, 116u8, 45u8, 109u8, 117u8, 115u8, 108u8],
        GroupJob::LtpGlibc => seq![111u8, 115u8, 99u8, 111u8, 109u8, 112u8, 45u8, 108u8, 116u8, 112u8, 45u8, 103u8, 108u8, 105u8, 98u8, 99u8],
        GroupJob::LtpMusl => seq![111u8, 115u8, 99u8, 111u8, 109u8, 112u8, 45u8, 108u8, 116u8, 112u8, 45u8, 109u8, 117u8, 115u8, 108u8],
        GroupJob::LmbenchGlibc => seq![111u8, 115u8, 99u8, 111u8, 109u8, 112u8, 45u8, 108u8, 109u8, 98u8, 101u8, 110u8, 99u8, 104u8, 45u8, 103u8, 108u8, 105u8, 98u8, 99u8],
        GroupJob::LmbenchMusl => seq![111u8, 115u8, 99u8, 111u8, 109u8, 112u8, 45u8, 108u8, 109u8, 98u8, 101u8, 110u8, 99u8, 104u8, 45u8, 109u8, 117u8, 115u8, 108u8],
    }
}

/// The marker name a job's group prints, empty where it has none.
pub open spec fn job_marker(j: GroupJob) -> Seq<u8> {
    match j {
        GroupJob::BasicGlibc => Seq::empty(),
        GroupJob::BasicMusl => Seq::empty(),
        GroupJob::BasicRoot => Seq::empty(),
        GroupJob::BusyboxGlibc => Seq::empty(),
        GroupJob::BusyboxMusl => Seq::empty(),
        GroupJob::BusyboxRoot => Seq::empty(),
        GroupJob::LuaGlibc => Seq::empty(),
        GroupJob::LuaMusl => Seq::empty(),
        GroupJob::LuaRoot => Seq::empty(),
        GroupJob::LibcbenchGlibc => Seq::empty(),
        GroupJob::LibcbenchMusl => Seq::empty(),
        GroupJob::LibcbenchRoot => Seq::empty(),
        GroupJob::LibctestMusl => seq![108u8, 105u8, 98u8, 99u8, 116u8, 101u8, 115u8, 116u8, 45u8, 109u8, 117u8, 115u8, 108u8],
        GroupJob::LibctestMuslNested => seq![108u8, 105u8, 98u8, 99u8, 116u8, 101u8, 115u8, 116u8, 45u8, 109u8, 117u8, 115u8, 108u8],
        GroupJob::LtpGlibc => seq![108u8, 116u8, 112u8, 45u8, 103u8, 108u8, 105u8, 98u8, 99u8],
        GroupJob::LtpMusl => seq![108u8, 116u8, 112u8, 45u8, 109u8, 117u8, 115u8, 108u8],
        GroupJob::LmbenchGlibc => seq![108u8, 109u8, 98u8, 101u8, 110u8, 99u8, 104u8, 45u8, 103u8, 108u8, 105u8, 98u8, 99u8],
        GroupJob::LmbenchMusl => seq![108u8, 109u8, 98u8, 101u8, 110u8, 99u8, 104u8, 45u8, 109u8, 117u8, 115u8, 108u8],
    }
}

/// The runtime a job's group gets where its executables are dynamic.
pub open spec fn job_flavor(j: GroupJob) -> Option<BasicFlavor> {
    match j {
        GroupJob::BasicGlibc => Some(BasicFlavor::Glibc),
        GroupJob::BasicMusl => Some(BasicFlavor::Musl),
        GroupJob::BasicRoot => Some(BasicFlavor::Root),
        GroupJob::BusyboxGlibc => None,
        GroupJob::BusyboxMusl => None,
        GroupJob::BusyboxRoot => None,
        GroupJob::LuaGlibc => None,
        GroupJob::LuaMusl => None,
        GroupJob::LuaRoot => None,
        GroupJob::LibcbenchGlibc => None,
        GroupJob::LibcbenchMusl => None,
        GroupJob::LibcbenchRoot => None,
        GroupJob::LibctestMusl => None,
        GroupJob::LibctestMuslNested => None,
        GroupJob::LtpGlibc => Some(BasicFlavor::Glibc),
        GroupJob::LtpMusl => Some(BasicFlavor::Musl),
        GroupJob::LmbenchGlibc => Some(BasicFlavor::Glibc),
        GroupJob::LmbenchMusl => Some(BasicFlavor::Musl),
    }
}

impl GroupJob {
    /// The disk path this job looks at.
    pub fn source(&self) -> (r: Vec<u8>)
        ensures
            r@ == job_source(*self),
    {
        match self {
            GroupJob::BasicGlibc => {
                let v: Vec<u8> = vec![103u8, 108u8, 105u8, 98u8, 99u8, 47u8, 98u8, 97u8, 115u8, 105u8, 99u8, 95u8, 116u8, 101u8, 115u8, 116u8, 99u8, 111u8, 100u8, 101u8, 46u8, 115u8, 104u8];
                assert(v@ =~= job_source(*self));
                v
            },
            GroupJob::BasicMusl => {
                let v: Vec<u8> = vec![109u8, 117u8, 115u8, 108u8, 47u8, 98u8, 97u8, 115u8, 105u8, 99u8, 95u8, 116u8, 101u8, 115u8, 116u8, 99u8, 111u8, 100u8, 101u8, 46u8, 115u8, 104u8];
                assert(v@ =~= job_source(*self));
                v
            },
            GroupJob::BasicRoot => {
                let v: Vec<u8> = vec![98u8, 97u8, 115u8, 105u8, 99u8, 95u8, 116u8, 101u8, 115u8, 116u8, 99u8, 111u8, 100u8, 101u8, 46u8, 115u8, 104u8];
                assert(v@ =~= job_source(*self));
                v
            },
            GroupJob::BusyboxGlibc => {
                let v: Vec<u8> = vec![103u8, 108u8, 105u8, 98u8, 99u8, 47u8, 98u8, 117u8, 115u8, 121u8, 98u8, 111u8, 120u8, 95u8, 116u8, 101u8, 115u8, 116u8, 99u8, 111u8, 100u8, 101u8, 46u8, 115u8, 104u8];
                assert(v@ =~= job_source(*self));
                v
            },
            GroupJob::BusyboxMusl => {
                let v: Vec<u8> = vec![109u8, 117u8, 115u8, 108u8, 47u8, 98u8, 117u8, 115u8, 121u8, 98u8, 111u8, 120u8, 95u8, 116u8, 101u8, 115u8, 116u8, 99u8, 111u8, 100u8, 101u8, 46u8, 115u8, 104u8];
                assert(v@ =~= job_source(*self));
                v
            },
            GroupJob::BusyboxRoot => {
                let v: Vec<u8> = vec![98u8, 117u8, 115u8, 121u8, 98u8, 111u8, 120u8, 95u8, 116u8, 101u8, 115u8, 116u8, 99u8, 111u8, 100u8, 101u8, 46u8, 115u8, 104u8];
                assert(v@ =~= job_source(*self));
                v
            },
            GroupJob::LuaGlibc => {
                let v: Vec<u8> = vec![103u8, 108u8, 105u8, 98u8, 99u8, 47u8, 108u8, 117u8, 97u8, 95u8, 116u8, 101u8, 115u8, 116u8, 99u8, 111u8, 100u8, 101u8, 46u8, 115u8, 104u8];
                assert(v@ =~= job_source(*self));
                v
            },
            GroupJob::LuaMusl => {
                let v: Vec<u8> = vec![109u8, 117u8, 115u8, 108u8, 47u8, 108u8, 117u8, 97u8, 95u8, 116u8, 101u8, 115u8, 116u8, 99u8, 111u8, 100u8, 101u8, 46u8, 115u8, 104u8];
                assert(v@ =~= job_source(*self));
                v
            },
            GroupJob::LuaRoot => {
                let v: Vec<u8> = vec![108u8, 117u8, 97u8, 95u8, 116u8, 101u8, 115u8, 116u8, 99u8, 111u8, 100u8, 101u8, 46u8, 115u8, 104u8];
                assert(v@ =~= job_source(*self));
                v
            },
            GroupJob::LibcbenchGlibc => {
                let v: Vec<u8> = vec![103u8, 108u8, 105u8, 98u8, 99u8, 47u8, 108u8, 105u8, 98u8, 99u8, 98u8, 101u8, 110u8, 99u8, 104u8, 95u8, 116u8, 101u8, 115u8, 116u8, 99u8, 111u8, 100u8, 101u8, 46u8, 115u8, 104u8];
                assert(v@ =~= job_source(*self));
                v
            },
            GroupJob::LibcbenchMusl => {
                let v: Vec<u8> = vec![109u8, 117u8, 115u8, 108u8, 47u8, 108u8, 105u8, 98u8, 99u8, 98u8, 101u8, 110u8, 99u8, 104u8, 95u8, 116u8, 101u8, 115u8, 116u8, 99u8, 111u8, 100u8, 101u8, 46u8, 115u8, 104u8];
                assert(v@ =~= job_source(*self));
                v
            },
            GroupJob::LibcbenchRoot => {
                let v: Vec<u8> = vec![108u8, 105u8, 98u8, 99u8, 98u8, 101u8, 110u8, 99u8, 104u8, 95u8, 116u8, 101u8, 115u8, 116u8, 99u8, 111u8, 100u8, 101u8, 46u8, 115u8, 104u8];
                assert(v@ =~= job_source(*self));
                v
            },
            GroupJob::LibctestMusl => {
                let v: Vec<u8> = vec![109u8, 117u8, 115u8, 108u8, 47u8, 108u8, 105u8, 98u8, 99u8, 116u8, 101u8, 115u8, 116u8, 95u8, 116u8, 101u8, 115u8, 116u8, 99u8, 111u8, 100u8, 101u8, 46u8, 115u8, 104u8];
                assert(v@ =~= job_source(*self));
                v
            },
            GroupJob::LibctestMuslNested => {
                let v: Vec<u8> = vec![109u8, 117u8, 115u8, 108u8, 47u8, 108u8, 105u8, 98u8, 99u8, 116u8, 101u8, 115u8, 116u8, 47u8, 108u8, 105u8, 98u8, 99u8, 116u8, 101u8, 115u8, 116u8, 95u8, 116u8, 101u8, 115u8, 116u8, 99u8, 111u8, 100u8, 101u8, 46u8, 115u8, 104u8];
                assert(v@ =~= job_source(*self));
                v
            },
            GroupJob::LtpGlibc => {
                let v: Vec<u8> = vec![103u8, 108u8, 105u8, 98u8, 99u8, 47u8, 108u8, 116u8, 112u8, 47u8, 116u8, 101u8, 115u8, 116u8, 99u8, 97u8, 115u8, 101u8, 115u8, 47u8, 98u8, 105u8, 110u8];
                assert(v@ =~= job_source(*self));
                v
            },
            GroupJob::LtpMusl => {
                let v: Vec<u8> = vec![109u8, 117u8, 115u8, 108u8, 47u8, 108u8, 116u8, 112u8, 47u8, 116u8, 101u8, 115u8, 116u8, 99u8, 97u8, 115u8, 101u8, 115u8, 47u8, 98u8, 105u8, 110u8];
                assert(v@ =~= job_source(*self));
                v
            },
            GroupJob::LmbenchGlibc => {
                let v: Vec<u8> = vec![103u8, 108u8, 105u8, 98u8, 99u8, 47u8, 108u8, 109u8, 98u8, 101u8, 110u8, 99u8, 104u8, 95u8, 116u8, 101u8, 115u8, 116u8, 99u8, 111u8, 100u8, 101u8, 46u8, 115u8, 104u8];
                assert(v@ =~= job_source(*self));
                v
            },
            GroupJob::LmbenchMusl => {
                let v: Vec<u8> = vec![109u8, 117u8, 115u8, 108u8, 47u8, 108u8, 109u8, 98u8, 101u8, 110u8, 99u8, 104u8, 95u8, 116u8, 101u8, 115u8, 116u8, 99u8, 111u8, 100u8, 101u8, 46u8, 115u8, 104u8];
                assert(v@ =~= job_source(*self));
                v
            },
        }
    }

    /// The directory this job's group is staged into.
    pub fn group_dir(&self) -> (r: Vec<u8>)
        ensures
            r@ == job_dir(*self),
    {
        match self {
            GroupJob::BasicGlibc => {
                let v: Vec<u8> = vec![111u8, 115u8, 99u8, 111u8, 109u8, 112u8, 45u8, 103u8, 108u8, 105u8, 98u8, 99u8];
                assert(v@ =~= job_dir(*self));
                v
            },
            GroupJob::BasicMusl => {
                let v: Vec<u8> = vec![111u8, 115u8, 99u8, 111u8, 109u8, 112u8, 45u8, 109u8, 117u8, 115u8, 108u8];
                assert(v@ =~= job_dir(*self));
                v
            },
            GroupJob::BasicRoot => {
                let v: Vec<u8> = vec![111u8, 115u8, 99u8, 111u8, 109u8, 112u8, 45u8, 98u8, 97u8, 115u8, 105u8, 99u8];
                assert(v@ =~= job_dir(*self));
                v
            },
            GroupJob::BusyboxGlibc => {
                let v: Vec<u8> = vec![111u8, 115u8, 99u8, 111u8, 109u8, 112u8, 45u8, 98u8, 117u8, 115u8, 121u8, 98u8, 111u8, 120u8, 45u8, 103u8, 108u8, 105u8, 98u8, 99u8];
                assert(v@ =~= job_dir(*self));
                v
            },
            GroupJob::BusyboxMusl => {
                let v: Vec<u8> = vec![111u8, 115u8, 99u8, 111u8, 109u8, 112u8, 45u8, 98u8, 117u8, 115u8, 121u8, 98u8, 111u8, 120u8, 45u8, 109u8, 117u8, 115u8, 108u8];
                assert(v@ =~= job_dir(*self));
                v
            },
            GroupJob::BusyboxRoot => {
                let v: Vec<u8> = vec![111u8, 115u8, 99u8, 111u8, 109u8, 112u8, 45u8, 98u8, 117u8, 115u8, 121u8, 98u8, 111u8, 120u8];
                assert(v@ =~= job_dir(*self));
                v
            },
            GroupJob::LuaGlibc => {
                let v: Vec<u8> = vec![111u8, 115u8, 99u8, 111u8, 109u8, 112u8, 45u8, 108u8, 117u8, 97u8, 45u8, 103u8, 108u8, 105u8, 98u8, 99u8];
                assert(v@ =~= job_dir(*self));
                v
            },
            GroupJob::LuaMusl => {
                let v: Vec<u8> = vec![111u8, 115u8, 99u8, 111u8, 109u8, 112u8, 45u8, 108u8, 117u8, 97u8, 45u8, 109u8, 117u8, 115u8, 108u8];
                assert(v@ =~= job_dir(*self));
                v
            },
            GroupJob::LuaRoot => {
                let v: Vec<u8> = vec![111u8, 115u8, 99u8, 111u8, 109u8, 112u8, 45u8, 108u8, 117u8, 97u8];
                assert(v@ =~= job_dir(*self));
                v
            },
            GroupJob::LibcbenchGlibc => {
                let v: Vec<u8> = vec![111u8, 115u8, 99u8, 111u8, 109u8, 112u8, 45u8, 108u8, 105u8, 98u8, 99u8, 98u8, 101u8, 110u8, 99u8, 104u8, 45u8, 103u8, 108u8, 105u8, 98u8, 99u8];
                assert(v@ =~= job_dir(*self));
                v
            },
            GroupJob::LibcbenchMusl => {
                let v: Vec<u8> = vec![111u8, 115u8, 99u8, 111u8, 109u8, 112u8, 45u8, 108u8, 105u8, 98u8, 99u8, 98u8, 101u8, 110u8, 99u8, 104u8, 45u8, 109u8, 117u8, 115u8, 108u8];
                assert(v@ =~= job_dir(*self));
                v
            },
            GroupJob::LibcbenchRoot => {
                let v: Vec<u8> = vec![111u8, 115u8, 99u8, 111u8, 109u8, 112u8, 45u8, 108u8, 105u8, 98u8, 99u8, 98u8, 101u8, 110u8, 99u8, 104u8];
                assert(v@ =~= job_dir(*self));
                v
            },
            GroupJob::LibctestMusl => {
                let v: Vec<u8> = vec![111u8, 115u8, 99u8, 111u8, 109u8, 112u8, 45u8, 108u8, 105u8, 98u8, 99u8, 116u8, 101u8, 115u8, 116u8, 45u8, 109u8, 117u8, 115u8, 108u8];
                assert(v@ =~= job_dir(*self));
                v
            },
            GroupJob::LibctestMuslNested => {
                let v: Vec<u8> = vec![111u8, 115u8, 99u8, 111u8, 109u8, 112u8, 45u8, 108u8, 105u8, 98u8, 99u8, 116u8, 101u8, 115u8, 116u8, 45u8, 109u8, 117u8, 115u8, 108u8];
                assert(v@ =~= job_dir(*self));
                v
            },
            GroupJob::LtpGlibc => {
                let v: Vec<u8> = vec![111u8, 115u8, 99u8, 111u8, 109u8, 112u8, 45u8, 108u8, 116u8, 112u8, 45u8, 103u8, 108u8, 105u8, 98u8, 99u8];
                assert(v@ =~= job_dir(*self));
                v
            },
            GroupJob::LtpMusl => {
                let v: Vec<u8> = vec![111u8, 115u8, 99u8, 111u8, 109u8, 112u8, 45u8, 108u8, 116u8, 112u8, 45u8, 109u8, 117u8, 115u8, 108u8];
                assert(v@ =~= job_dir(*self));
                v
            },
            GroupJob::LmbenchGlibc => {
                let v: Vec<u8> = vec![111u8, 115u8, 99u8, 111u8, 109u8, 112u8, 45u8, 108u8, 109u8, 98u8, 101u8, 110u8, 99u8, 104u8, 45u8, 103u8, 108u8, 105u8, 98u8, 99u8];
                assert(v@ =~= job_dir(*self));
                v
            },
            GroupJob::LmbenchMusl => {
                let v: Vec<u8> = vec![111u8, 115u8, 99u8, 111u8, 109u8, 112u8, 45u8, 108u8, 109u8, 98u8, 101u8, 110u8, 99u8, 104u8, 45u8, 109u8, 117u8, 115u8, 108u8];
                assert(v@ =~= job_dir(*self));
                v
            },
        }
    }

    /// The marker name this job's group prints; empty where it has none.
    pub fn marker(&self) -> (r: Vec<u8>)
        ensures
            r@ == job_marker(*self),
    {
        match self {
            GroupJob::BasicGlibc => {
                let v: Vec<u8> = Vec::new();
                assert(v@ =~= job_marker(*self));
                v
            },
            GroupJob::BasicMusl => {
                let v: Vec<u8> = Vec::new();
                assert(v@ =~= job_marker(*self));
                v
            },
            GroupJob::BasicRoot => {
                let v: Vec<u8> = Vec::new();
                assert(v@ =~= job_marker(*self));
                v
            },
            GroupJob::BusyboxGlibc => {
                let v: Vec<u8> = Vec::new();
                assert(v@ =~= job_marker(*self));
                v
            },
            GroupJob::BusyboxMusl => {
                let v: Vec<u8> = Vec::new();
                assert(v@ =~= job_marker(*self));
                v
            },
            GroupJob::BusyboxRoot => {
                let v: Vec<u8> = Vec::new();
                assert(v@ =~= job_marker(*self));
                v
            },
            GroupJob::LuaGlibc => {
                let v: Vec<u8> = Vec::new();
                assert(v@ =~= job_marker(*self));
                v
            },
            GroupJob::LuaMusl => {
                let v: Vec<u8> = Vec::new();
                assert(v@ =~= job_marker(*self));
                v
            },
            GroupJob::LuaRoot => {
                let v: Vec<u8> = Vec::new();
                assert(v@ =~= job_marker(*self));
                v
            },
            GroupJob::LibcbenchGlibc => {
                let v: Vec<u8> = Vec::new();
                assert(v@ =~= job_marker(*self));
                v
            },
            GroupJob::LibcbenchMusl => {
                let v: Vec<u8> = Vec::new();
                assert(v@ =~= job_marker(*self));
                v
            },
            GroupJob::LibcbenchRoot => {
                let v: Vec<u8> = Vec::new();
                assert(v@ =~= job_marker(*self));
                v
            },
            GroupJob::LibctestMusl => {
                let v: Vec<u8> = vec![108u8, 105u8, 98u8, 99u8, 116u8, 101u8, 115u8, 116u8, 45u8, 109u8, 117u8, 115u8, 108u8];
                assert(v@ =~= job_marker(*self));
                v
            },
            GroupJob::LibctestMuslNested => {
                let v: Vec<u8> = vec![108u8, 105u8, 98u8, 99u8, 116u8, 101u8, 115u8, 116u8, 45u8, 109u8, 117u8, 115u8, 108u8];
                assert(v@ =~= job_marker(*self));
                v
            },
            GroupJob::LtpGlibc => {
                let v: Vec<u8> = vec![108u8, 116u8, 112u8, 45u8, 103u8, 108u8, 105u8, 98u8, 99u8];
                assert(v@ =~= job_marker(*self));
                v
            },
            GroupJob::LtpMusl => {
                let v: Vec<u8> = vec![108u8, 116u8, 112u8, 45u8, 109u8, 117u8, 115u8, 108u8];
                assert(v@ =~= job_marker(*self));
                v
            },
            GroupJob::LmbenchGlibc => {
                let v: Vec<u8> = vec![108u8, 109u8, 98u8, 101u8, 110u8, 99u8, 104u8, 45u8, 103u8, 108u8, 105u8, 98u8, 99u8];
                assert(v@ =~= job_marker(*self));
                v
            },
            GroupJob::LmbenchMusl => {
                let v: Vec<u8> = vec![108u8, 109u8, 98u8, 101u8, 110u8, 99u8, 104u8, 45u8, 109u8, 117u8, 115u8, 108u8];
                assert(v@ =~= job_marker(*self));
                v
            },
        }
    }

    /// The runtime this job's group gets where its executables are dynamic.
    pub fn flavor(&self) -> (r: Option<BasicFlavor>)
        ensures
            r == job_flavor(*self),
    {
        match self {
            GroupJob::BasicGlibc => Some(BasicFlavor::Glibc),
            GroupJob::BasicMusl => Some(BasicFlavor::Musl),
            GroupJob::BasicRoot => Some(BasicFlavor::Root),
            GroupJob::BusyboxGlibc => None,
            GroupJob::BusyboxMusl => None,
            GroupJob::BusyboxRoot => None,
            GroupJob::LuaGlibc => None,
            GroupJob::LuaMusl => None,
            GroupJob::LuaRoot => None,
            GroupJob::LibcbenchGlibc => None,
            GroupJob::LibcbenchMusl => None,
            GroupJob::LibcbenchRoot => None,
            GroupJob::LibctestMusl => None,
            GroupJob::LibctestMuslNested => None,
            GroupJob::LtpGlibc => Some(BasicFlavor::Glibc),
            GroupJob::LtpMusl => Some(BasicFlavor::Musl),
            GroupJob::LmbenchGlibc => Some(BasicFlavor::Glibc),
            GroupJob::LmbenchMusl => Some(BasicFlavor::Musl),
        }
    }
}


/// `[j]` where the path `j` looks at names a regular file of the disk, else nothing.
pub open spec fn if_regular(d: Seq<u8>, fs: Ext4Fs, j: GroupJob) -> Seq<GroupJob> {
    if regular_at(d, fs, job_source(j)) {
        seq![j]
    } else {
        Seq::empty()
    }
}

/// The root basic group, where neither named basic script is there and it is.
pub open spec fn root_basic(d: Seq<u8>, fs: Ext4Fs) -> Seq<GroupJob> {
    if !regular_at(d, fs, job_source(GroupJob::BasicGlibc)) && !regular_at(d, fs, job_source(GroupJob::BasicMusl)) {
        if_regular(d, fs, GroupJob::BasicRoot)
    } else {
        Seq::empty()
    }
}

/// The groups a staging run tries, in order: the glibc, then the musl basic group (the
/// root one only where neither is there), then busybox, lua, libc-bench, libc-test, the
/// two LTP case directories, which are always looked into, and lmbench; within a kind,
/// glibc, musl, then the root. A group whose script is not a regular file is left out.
pub open spec fn staging_plan_spec(d: Seq<u8>, fs: Ext4Fs) -> Seq<GroupJob> {
    Seq::<GroupJob>::empty()
        + if_regular(d, fs, GroupJob::BasicGlibc)
        + if_regular(d, fs, GroupJob::BasicMusl)
        + root_basic(d, fs)
        + if_regular(d, fs, GroupJob::BusyboxGlibc)
        + if_regular(d, fs, GroupJob::BusyboxMusl)
        + if_regular(d, fs, GroupJob::BusyboxRoot)
        + if_regular(d, fs, GroupJob::LuaGlibc)
        + if_regular(d, fs, GroupJob::LuaMusl)
        + if_regular(d, fs, GroupJob::LuaRoot)
        + if_regular(d, fs, GroupJob::LibcbenchGlibc)
        + if_regular(d, fs, GroupJob::LibcbenchMusl)
        + if_regular(d, fs, GroupJob::LibcbenchRoot)
        + if_regular(d, fs, GroupJob::LibctestMusl)
        + if_regular(d, fs, GroupJob::LibctestMuslNested)
        + seq![GroupJob::LtpGlibc]
        + seq![GroupJob::LtpMusl]
        + if_regular(d, fs, GroupJob::LmbenchGlibc)
        + if_regular(d, fs, GroupJob::LmbenchMusl)
}

/// Appends `job` where the path it looks at names a regular file; says whether it did.
fn push_if_regular(disk: &[u8], fs: &Ext4Fs, job: GroupJob, plan: &mut Vec<GroupJob>) -> (r: bool)
    requires
        fs.wf(),
    ensures
        final(plan)@ == old(plan)@ + if_regular(disk@, *fs, job),
        r == regular_at(disk@, *fs, job_source(job)),
{
    let path = job.source();
    let r = is_regular_path(disk, fs, path.as_slice());
    if r {
        plan.push(job);
    }
    assert(final(plan)@ =~= old(plan)@ + if_regular(disk@, *fs, job));
    r
}

/// The groups a staging run of the disk tries, in the order it tries them.
pub fn staging_plan(disk: &[u8], fs: &Ext4Fs) -> (r: Vec<GroupJob>)
    requires
        fs.wf(),
    ensures
        r@ == staging_plan_spec(disk@, *fs),
{
    let mut plan: Vec<GroupJob> = Vec::new();
    let glibc = push_if_regular(disk, fs, GroupJob::BasicGlibc, &mut plan);
    let musl = push_if_regular(disk, fs, GroupJob::BasicMusl, &mut plan);
    let ghost before_root = plan@;
    if !glibc && !musl {
        push_if_regular(disk, fs, GroupJob::BasicRoot, &mut plan);
    }
    assert(plan@ =~= before_root + root_basic(disk@, *fs));
    push_if_regular(disk, fs, GroupJob::BusyboxGlibc, &mut plan);
    push_if_regular(disk, fs, GroupJob::BusyboxMusl, &mut plan);
    push_if_regular(disk, fs, GroupJob::BusyboxRoot, &mut plan);
    push_if_regular(disk, fs, GroupJob::LuaGlibc, &mut plan);
    push_if_regular(disk, fs, GroupJob::LuaMusl, &mut plan);
    push_if_regular(disk, fs, GroupJob::LuaRoot, &mut plan);
    push_if_regular(disk, fs, GroupJob::LibcbenchGlibc, &mut plan);
    push_if_regular(disk, fs, GroupJob::LibcbenchMusl, &mut plan);
    push_if_regular(disk, fs, GroupJob::LibcbenchRoot, &mut plan);
    push_if_regular(disk, fs, GroupJob::LibctestMusl, &mut plan);
    push_if_regular(disk, fs, GroupJob::LibctestMuslNested, &mut plan);
    let ghost before_ltp = plan@;
    plan.push(GroupJob::LtpGlibc);
    assert(plan@ =~= before_ltp + seq![GroupJob::LtpGlibc]);
    let ghost before_ltp_musl = plan@;
    plan.push(GroupJob::LtpMusl);
    assert(plan@ =~= before_ltp_musl + seq![GroupJob::LtpMusl]);
    push_if_regular(disk, fs, GroupJob::LmbenchGlibc, &mut plan);
    push_if_regular(disk, fs, GroupJob::LmbenchMusl, &mut plan);
    plan
}

/// The place of a job in the order staging tries them: the order of `GroupJob`.
pub open spec fn job_rank(j: GroupJob) -> int {
    match j {
        GroupJob::BasicGlibc => 0,
        GroupJob::BasicMusl => 1,
        GroupJob::BasicRoot => 2,
        GroupJob::BusyboxGlibc => 3,
        GroupJob::BusyboxMusl => 4,
        GroupJob::BusyboxRoot => 5,
        GroupJob::LuaGlibc => 6,
        GroupJob::LuaMusl => 7,
        GroupJob::LuaRoot => 8,
        GroupJob::LibcbenchGlibc => 9,
        GroupJob::LibcbenchMusl => 10,
        GroupJob::LibcbenchRoot => 11,
        GroupJob::LibctestMusl => 12,
        GroupJob::LibctestMuslNested => 13,
        GroupJob::LtpGlibc => 14,
        GroupJob::LtpMusl => 15,
        GroupJob::LmbenchGlibc => 16,
        GroupJob::LmbenchMusl => 17,
    }
}

/// Every job of `s` comes before every later one in the order of `GroupJob`, so no job
/// occurs twice.
#[verifier::opaque]
pub open spec fn rank_increasing(s: Seq<GroupJob>) -> bool {
    forall|i: int, k: int| 0 <= i < k < s.len() ==> job_rank(#[trigger] s[i]) < job_rank(#[trigger] s[k])
}

/// Every job of `s` ranks below `k`.
#[verifier::opaque]
spec fn ranked_below(s: Seq<GroupJob>, k: int) -> bool {
    forall|i: int| 0 <= i < s.len() ==> job_rank(#[trigger] s[i]) < k
}

/// Appending at most one job of rank `k` to jobs all ranked below `k` keeps the ranks
/// increasing, and the result holds what the two parts hold.
proof fn lemma_plan_step(p: Seq<GroupJob>, q: Seq<GroupJob>, k: int, x: GroupJob)
    requires
        rank_increasing(p),
        ranked_below(p, k),
        q.len() <= 1,
        q.len() == 1 ==> job_rank(q[0]) == k,
    ensures
        rank_increasing(p + q),
        ranked_below(p + q, k + 1),
        (p + q).contains(x) <==> (p.contains(x) || (q.len() == 1 && q[0] == x)),
{
    reveal(rank_increasing);
    reveal(ranked_below);
    let s = p + q;
    assert forall|i: int, m: int| 0 <= i < m < s.len() implies job_rank(#[trigger] s[i]) < job_rank(#[trigger] s[m]) by {
        if m < p.len() {
            assert(s[i] == p[i] && s[m] == p[m]);
        } else {
            assert(s[i] == p[i]);
            assert(s[m] == q[0]);
        }
    }
    assert forall|i: int| 0 <= i < s.len() implies job_rank(#[trigger] s[i]) < k + 1 by {
        if i < p.len() {
            assert(s[i] == p[i]);
        } else {
            assert(s[i] == q[0]);
        }
    }
    if s.contains(x) {
        let i = choose|i: int| 0 <= i < s.len() && s[i] == x;
        if i < p.len() {
            assert(p[i] == x);
        } else {
            assert(q[0] == x);
        }
    }
    if p.contains(x) {
        let i = choose|i: int| 0 <= i < p.len() && p[i] == x;
        assert(s[i] == x);
    }
    if q.len() == 1 && q[0] == x {
        assert(s[p.len() as int] == x);
    }
}

/// Staging tries exactly the groups found on the disk, each once, in the order of
/// `GroupJob`: a group whose script (or, for LTP, whose case directory: those are always
/// tried) names a regular file of the disk is in the plan, and a group that is not found
/// is not; the root basic group is tried only where neither named basic script is there.
pub proof fn lemma_plan_holds_found_groups(d: Seq<u8>, fs: Ext4Fs, j: GroupJob)
    ensures
        rank_increasing(staging_plan_spec(d, fs)),
        (j is LtpGlibc || j is LtpMusl) ==> staging_plan_spec(d, fs).contains(j),
        j is BasicRoot ==> (staging_plan_spec(d, fs).contains(j) <==> (regular_at(d, fs, job_source(j))
            && !regular_at(d, fs, job_source(GroupJob::BasicGlibc))
            && !regular_at(d, fs, job_source(GroupJob::BasicMusl)))),
        !(j is LtpGlibc || j is LtpMusl || j is BasicRoot) ==> (staging_plan_spec(d, fs).contains(j)
            <==> regular_at(d, fs, job_source(j))),
{
    let p0 = Seq::<GroupJob>::empty();
    assert(rank_increasing(p0) && ranked_below(p0, 0)) by {
        reveal(rank_increasing);
        reveal(ranked_below);
    }
    let q0 = if_regular(d, fs, GroupJob::BasicGlibc);
    lemma_plan_step(p0, q0, 0, j);
    let p1 = p0 + q0;
    let q1 = if_regular(d, fs, GroupJob::BasicMusl);
    lemma_plan_step(p1, q1, 1, j);
    let p2 = p1 + q1;
    let q2 = root_basic(d, fs);
    lemma_plan_step(p2, q2, 2, j);
    let p3 = p2 + q2;
    let q3 = if_regular(d, fs, GroupJob::BusyboxGlibc);
    lemma_plan_step(p3, q3, 3, j);
    let p4 = p3 + q3;
    let q4 = if_regular(d, fs, GroupJob::BusyboxMusl);
    lemma_plan_step(p4, q4, 4, j);
    let p5 = p4 + q4;
    let q5 = if_regular(d, fs, GroupJob::BusyboxRoot);
    lemma_plan_step(p5, q5, 5, j);
    let p6 = p5 + q5;
    let q6 = if_regular(d, fs, GroupJob::LuaGlibc);
    lemma_plan_step(p6, q6, 6, j);
    let p7 = p6 + q6;
    let q7 = if_regular(d, fs, GroupJob::LuaMusl);
    lemma_plan_step(p7, q7, 7, j);
    let p8 = p7 + q7;
    let q8 = if_regular(d, fs, GroupJob::LuaRoot);
    lemma_plan_step(p8, q8, 8, j);
    let p9 = p8 + q8;
    let q9 = if_regular(d, fs, GroupJob::LibcbenchGlibc);
    lemma_plan_step(p9, q9, 9, j);
    let p10 = p9 + q9;
    let q10 = if_regular(d, fs, GroupJob::LibcbenchMusl);
    lemma_plan_step(p10, q10, 10, j);
    let p11 = p10 + q10;
    let q11 = if_regular(d, fs, GroupJob::LibcbenchRoot);
    lemma_plan_step(p11, q11, 11, j);
    let p12 = p11 + q11;
    let q12 = if_regular(d, fs, GroupJob::LibctestMusl);
    lemma_plan_step(p12, q12, 12, j);
    let p13 = p12 + q12;
    let q13 = if_regular(d, fs, GroupJob::LibctestMuslNested);
    lemma_plan_step(p13, q13, 13, j);
    let p14 = p13 + q13;
    let q14 = seq![GroupJob::LtpGlibc];
    lemma_plan_step(p14, q14, 14, j);
    let p15 = p14 + q14;
    let q15 = seq![GroupJob::LtpMusl];
    lemma_plan_step(p15, q15, 15, j);
    let p16 = p15 + q15;
    let q16 = if_regular(d, fs, GroupJob::LmbenchGlibc);
    lemma_plan_step(p16, q16, 16, j);
    let p17 = p16 + q16;
    let q17 = if_regular(d, fs, GroupJob::LmbenchMusl);
    lemma_plan_step(p17, q17, 17, j);
    assert(staging_plan_spec(d, fs) == p17 + q17);
}

/// Whether a staged group counts: an LTP group only where it found cases to run.
pub fn job_counts(job: GroupJob, commands: usize) -> (r: bool)
    ensures
        r == (!(job is LtpGlibc || job is LtpMusl) || commands > 0),
{
    match job {
        GroupJob::LtpGlibc | GroupJob::LtpMusl => commands > 0,
        _ => true,
    }
}

/// Whether a group gets its runtime installed: where it has a runtime and one of its
/// executables named an interpreter.
pub fn needs_runtime(flavor: Option<BasicFlavor>, interps: &Vec<Vec<u8>>) -> (r: bool)
    ensures
        r == (interps@.len() > 0 && flavor is Some),
{
    interps.len() > 0 && flavor.is_some()
}

/// The records of the groups that were staged, in order; a group that was not staged
/// adds nothing.
pub open spec fn staged_records(s: Seq<Option<Vec<u8>>>) -> Seq<u8>
    decreases s.len(),
{
    if s.len() == 0 {
        Seq::empty()
    } else {
        staged_records(s.drop_last()) + match s.last() {
            Some(v) => v@,
            None => Seq::empty(),
        }
    }
}

/// Whether any group was staged.
pub open spec fn any_staged(s: Seq<Option<Vec<u8>>>) -> bool {
    exists|i: int| 0 <= i < s.len() && (#[trigger] s[i]) is Some
}

/// The queue a staging run writes, given the records of each group it tried (`None` for
/// one that was not staged): nothing where no group was staged, else the staged groups'
/// records one after another, in order.
pub fn finish_queue(staged: &Vec<Option<Vec<u8>>>) -> (r: Option<Vec<u8>>)
    ensures
        r is None <==> !any_staged(staged@),
        r matches Some(q) ==> q@ == staged_records(staged@),
{
    let mut queue: Vec<u8> = Vec::new();
    let mut found = false;
    let mut i: usize = 0;
    while i < staged.len()
        invariant
            i <= staged@.len(),
            queue@ == staged_records(staged@.take(i as int)),
            found <==> exists|j: int| 0 <= j < i && (#[trigger] staged@[j]) is Some,
        decreases staged@.len() - i,
    {
        proof {
            assert(staged@.take(i + 1).drop_last() =~= staged@.take(i as int));
        }
        match &staged[i] {
            Some(records) => {
                let mut k: usize = 0;
                let ghost start = queue@;
                while k < records.len()
                    invariant
                        k <= records@.len(),
                        queue@ == start + records@.take(k as int),
                    decreases records@.len() - k,
                {
                    queue.push(records[k]);
                    assert(records@.take(k + 1) =~= records@.take(k as int).push(records@[k as int]));
                    assert(queue@ =~= start + records@.take(k + 1));
                    k = k + 1;
                }
                assert(records@.take(records@.len() as int) =~= records@);
                found = true;
            },
            None => {
                assert(queue@ =~= queue@ + Seq::<u8>::empty());
            },
        }
        i = i + 1;
    }
    assert(staged@.take(staged@.len() as int) =~= staged@);
    if found {
        Some(queue)
    } else {
        None
    }
}

} // verus!
