//! Submissions and the intrusive-list links they carry.
use vstd::prelude::*;

verus! {

/// A submission.
#[derive(Clone, Copy, Debug)]
pub struct Sub {
    status: i32,
    flags_and_op_code: u32,
    in_list: bool,
    list_next: Option<usize>,
}

/// What a submission holds, as plain values.
pub struct SubModel {
    pub status: i32,
    pub flags_and_op_code: u32,
    pub in_list: bool,
    pub next: Option<usize>,
}

impl SubModel {
    /// Everything but the list links is the same.
    pub open spec fn same_payload(self, other: SubModel) -> bool {
        &&& self.status == other.status
        &&& self.flags_and_op_code == other.flags_and_op_code
    }
}

impl View for Sub {
    type V = SubModel;

    closed spec fn view(&self) -> SubModel {
        SubModel {
            status: self.status,
            flags_and_op_code: self.flags_and_op_code,
            in_list: self.in_list,
            next: self.list_next,
        }
    }
}

impl Default for Sub {
    fn default() -> (r: Sub)
        ensures
            r@.status == 0,
            r@.flags_and_op_code == 0,
            !r@.in_list,
            r@.next == None::<usize>,
    {
        Sub { status: 0, flags_and_op_code: 0, in_list: false, list_next: None }
    }
}

impl Sub {
    /// Tells whether the submission is linked in a list.
    pub fn in_a_list(&self) -> (b: bool)
        ensures
            b == self@.in_list,
    {
        self.in_list
    }

    /// Links an unlinked submission in front of `next`.
    pub fn list_set_next(&mut self, next: Option<usize>)
        requires
            !old(self)@.in_list,
        ensures
            final(self)@.in_list,
            final(self)@.next == next,
            final(self)@.same_payload(old(self)@),
    {
        self.in_list = true;
        self.list_next = next;
    }

    /// Changes the successor of a linked submission.
    pub fn list_update_next(&mut self, next: Option<usize>)
        requires
            old(self)@.in_list,
        ensures
            final(self)@.in_list,
            final(self)@.next == next,
            final(self)@.same_payload(old(self)@),
    {
        self.list_next = next;
    }

    /// The successor of the submission.
    pub fn list_get_next(&self) -> (next: Option<usize>)
        ensures
            next == self@.next,
    {
        self.list_next
    }

    /// Unlinks the submission and returns its former successor.
    pub fn list_pop_next(&mut self) -> (next: Option<usize>)
        ensures
            next == old(self)@.next,
            !final(self)@.in_list,
            final(self)@.next == None::<usize>,
            final(self)@.same_payload(old(self)@),
    {
        let next = self.list_next;
        self.in_list = false;
        self.list_next = None;
        next
    }
}

} // verus!
