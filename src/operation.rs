//! Operations: the definitions and security schemes they use, their
//! responses, and the error responses that an error type adds to them.

use vstd::prelude::*;
use crate::model::{clone_props, clone_str, props};
use crate::security::SecurityScheme;

verus! {

/// The responses of a list, by status code; a later entry wins.
pub open spec fn response_map(s: Seq<(u16, String)>) -> Map<u16, Seq<char>>
    decreases s.len(),
{
    if s.len() == 0 {
        Map::empty()
    } else {
        response_map(s.drop_last()).insert(s.last().0, s.last().1@)
    }
}

/// One operation of the API.
#[derive(Debug)]
pub struct Operation {
    /// Response descriptions by status code.
    pub responses: Vec<(u16, String)>,
    /// The definitions the operation uses: names and their root nodes.
    pub definitions: Vec<(String, usize)>,
    /// The security schemes the operation uses, under their names.
    pub security_definitions: Vec<(String, SecurityScheme)>,
    pub visible: bool,
}

impl Operation {
    /// A visible operation with nothing in it.
    pub fn new() -> (r: Operation)
        ensures
            r.responses@.len() == 0,
            r.definitions@.len() == 0,
            r.security_definitions@.len() == 0,
            r.visible,
    {
        Operation {
            responses: Vec::new(),
            definitions: Vec::new(),
            security_definitions: Vec::new(),
            visible: true,
        }
    }

}

/// What an operation reports of itself for the schema document.
pub trait Apiv2Operation {
    /// Whether the operation appears in the document, as a value.
    spec fn visible_spec(&self) -> bool;

    /// The definitions the operation uses, as values.
    spec fn definitions_spec(&self) -> Seq<(Seq<char>, usize)>;

    /// Whether the operation appears in the document.
    fn is_visible(&self) -> (r: bool)
        ensures
            r == self.visible_spec(),
    ;

    /// The definitions the operation uses: names and their root nodes.
    fn definitions(&self) -> (r: Vec<(String, usize)>)
        ensures
            props(r@) == self.definitions_spec(),
    ;
}

impl Apiv2Operation for Operation {
    open spec fn visible_spec(&self) -> bool {
        self.visible
    }

    open spec fn definitions_spec(&self) -> Seq<(Seq<char>, usize)> {
        props(self.definitions@)
    }

    fn is_visible(&self) -> (r: bool) {
        self.visible
    }

    fn definitions(&self) -> (r: Vec<(String, usize)>) {
        clone_props(&self.definitions)
    }
}

/// The error responses that an error type describes: status code and description.
#[derive(Debug)]
pub struct ErrorMap {
    pub error_map: Vec<(u16, String)>,
}

/// What an error type adds to the operations that can fail with it.
pub trait Apiv2Errors {
    /// The error responses, by status code.
    spec fn errors_spec(&self) -> Map<u16, Seq<char>>;

    /// Adds each error response to the operation, over any response it had
    /// for the same status code. Nothing else of the operation changes.
    fn update_error_definitions(&self, op: &mut Operation)
        ensures
            response_map(final(op).responses@) == response_map(old(op).responses@).union_prefer_right(
                self.errors_spec(),
            ),
            final(op).definitions@ == old(op).definitions@,
            final(op).security_definitions@ == old(op).security_definitions@,
            final(op).visible == old(op).visible,
    ;
}

impl Apiv2Errors for ErrorMap {
    open spec fn errors_spec(&self) -> Map<u16, Seq<char>> {
        response_map(self.error_map@)
    }

    fn update_error_definitions(&self, op: &mut Operation) {
        let ghost base = response_map(op.responses@);
        let mut i: usize = 0;
        while i < self.error_map.len()
            invariant
                i <= self.error_map@.len(),
                op.definitions@ == old(op).definitions@,
                op.security_definitions@ == old(op).security_definitions@,
                op.visible == old(op).visible,
                base == response_map(old(op).responses@),
                response_map(op.responses@) == base.union_prefer_right(
                    response_map(self.error_map@.subrange(0, i as int)),
                ),
            decreases self.error_map.len() - i,
        {
            let ghost before = op.responses@;
            let code = self.error_map[i].0;
            op.responses.push((code, clone_str(&self.error_map[i].1)));
            assert(op.responses@.drop_last() =~= before);
            i += 1;
            assert(self.error_map@.subrange(0, i as int).drop_last() =~= self.error_map@.subrange(0, i - 1));
            assert(response_map(op.responses@) =~= base.union_prefer_right(
                response_map(self.error_map@.subrange(0, i as int)),
            ));
        }
        assert(self.error_map@.subrange(0, i as int) =~= self.error_map@);
    }
}

} // verus!
