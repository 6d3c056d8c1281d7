use vstd::prelude::*;
use vstd::string::*;

verus! {

/// The capability behind a block: a call with no argument that yields the
/// block's next text, or `None` when it could not produce one.
///
/// `produces` names the outcomes a producer admits: `Some(text)` for a text
/// it may return, `None` for a failure. A call may give any outcome the
/// producer admits, and different calls may differ; whatever the scheduler
/// proves about a block holds for every such outcome. A producer that does
/// not say which outcomes it admits admits all of them.
pub trait Producer {
    open spec fn produces(&self, out: Option<Seq<char>>) -> bool {
        true
    }

    fn produce(&self) -> (r: Option<String>)
        ensures
            r matches Some(s) ==> self.produces(Some(s@)),
            r is None ==> self.produces(None),
    ;
}

/// The outcome of a call: the text it stored, or the untouched text `before`
/// after a failure.
pub open spec fn ran<P: Producer>(p: P, before: Seq<char>, after: Seq<char>) -> bool {
    p.produces(Some(after)) || (after == before && p.produces(None))
}

/// A producer that always returns the same text.
pub struct Constant {
    text: String,
}

impl Constant {
    pub closed spec fn text(&self) -> Seq<char> {
        self.text@
    }

    pub fn new(text: &str) -> (r: Constant)
        ensures
            r.text() == text@,
    {
        Constant { text: String::from_str(text) }
    }
}

impl Default for Constant {
    fn default() -> (r: Constant)
        ensures
            r.text() == Seq::<char>::empty(),
    {
        Constant { text: String::new() }
    }
}

impl Producer for Constant {
    open spec fn produces(&self, out: Option<Seq<char>>) -> bool {
        out == Some(self.text())
    }

    fn produce(&self) -> (r: Option<String>) {
        Some(self.text.clone())
    }
}

} // verus!
