//! Where the user stacks lie.
use vstd::prelude::*;
use crate::memory_set::KernelLayout;

verus! {

/// Bytes of one user stack.
pub const USER_STACK_SIZE: usize = 8192;

/// The stack of program `app_id`: it starts at the stack's own address and spans
/// `USER_STACK_SIZE` bytes.
pub open spec fn user_stack_range_spec(l: KernelLayout, app_id: int) -> (usize, usize) {
    let base = if app_id == 0 { l.user_stack0 } else { l.user_stack1 };
    (base, (base + USER_STACK_SIZE) as usize)
}

/// The bottom and top of the stack of program `app_id`.
pub fn user_stack_range(layout: &KernelLayout, app_id: usize) -> (r: (usize, usize))
    requires
        app_id < crate::loader::APP_NUM,
        layout.user_stack0 + USER_STACK_SIZE <= usize::MAX,
        layout.user_stack1 + USER_STACK_SIZE <= usize::MAX,
    ensures
        r == user_stack_range_spec(*layout, app_id as int),
        stacks_placed(*layout) ==> r.1 - r.0 == USER_STACK_SIZE && r.1 % 16 == 0 && (
            r.1 <= user_stack_range_spec(*layout, 1 - app_id).0 || user_stack_range_spec(*layout, 1 - app_id).1 <= r.0),
{
    proof {
        if stacks_placed(*layout) {
            lemma_user_stacks(*layout, app_id as int);
        }
    }
    let top = user_stack_top(layout, app_id);
    let bottom = top - USER_STACK_SIZE;
    (bottom, top)
}

/// Where the two program stacks stand as two distinct statics aligned to 16 bytes:
/// both aligned, both within the address space, and apart.
pub open spec fn stacks_placed(l: KernelLayout) -> bool {
    &&& l.user_stack0 % 16 == 0
    &&& l.user_stack1 % 16 == 0
    &&& l.user_stack0 + USER_STACK_SIZE <= usize::MAX
    &&& l.user_stack1 + USER_STACK_SIZE <= usize::MAX
    &&& (l.user_stack0 + USER_STACK_SIZE <= l.user_stack1 || l.user_stack1 + USER_STACK_SIZE <= l.user_stack0)
}

/// Each program's stack spans `USER_STACK_SIZE` bytes and its top is 16-byte aligned,
/// and the stacks of programs 0 and 1 do not overlap.
pub proof fn lemma_user_stacks(l: KernelLayout, app_id: int)
    requires
        stacks_placed(l),
        0 <= app_id < crate::loader::APP_NUM,
    ensures
        user_stack_range_spec(l, app_id).1 - user_stack_range_spec(l, app_id).0 == USER_STACK_SIZE,
        user_stack_range_spec(l, app_id).1 % 16 == 0,
        user_stack_range_spec(l, 0).1 <= user_stack_range_spec(l, 1).0
            || user_stack_range_spec(l, 1).1 <= user_stack_range_spec(l, 0).0,
{
}

/// The address just past the stack of program `app_id`.
fn user_stack_top(layout: &KernelLayout, app_id: usize) -> (r: usize)
    requires
        app_id < crate::loader::APP_NUM,
        layout.user_stack0 + USER_STACK_SIZE <= usize::MAX,
        layout.user_stack1 + USER_STACK_SIZE <= usize::MAX,
    ensures
        r == user_stack_range_spec(*layout, app_id as int).1,
{
    if app_id == 0 {
        layout.user_stack0 + USER_STACK_SIZE
    } else {
        layout.user_stack1 + USER_STACK_SIZE
    }
}

} // verus!
