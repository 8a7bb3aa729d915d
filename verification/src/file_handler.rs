//! Line accumulation for the roster output.
//!
//! The handler only collects finished lines in order; turning them into a
//! file is the caller's business, so everything here is pure bookkeeping.
use vstd::prelude::*;

verus! {

/// An ordered collection of output lines, the header first.
pub struct FileHandler {
    lines: Vec<String>,
}

impl View for FileHandler {
    type V = Seq<String>;

    closed spec fn view(&self) -> Seq<String> {
        self.lines@
    }
}

impl FileHandler {
    /// An empty handler.
    pub fn new() -> (r: Self)
        ensures
            r@ == Seq::<String>::empty(),
    {
        FileHandler { lines: Vec::new() }
    }

    /// Append the fixed column-header line of the roster output.
    pub fn add_header_line(&mut self)
        ensures
            final(self)@.len() == old(self)@.len() + 1,
            final(self)@.last()@ == "Datum,Wochentag,Vormittag,Nachmittag"@,
            forall|i: int| 0 <= i < old(self)@.len() ==> final(self)@[i] == old(self)@[i],
    {
        self.lines.push("Datum,Wochentag,Vormittag,Nachmittag".to_owned());
    }

    /// Append one finished line.
    pub fn add_line(&mut self, line: &str)
        ensures
            final(self)@.len() == old(self)@.len() + 1,
            final(self)@.last()@ == line@,
            forall|i: int| 0 <= i < old(self)@.len() ==> final(self)@[i] == old(self)@[i],
    {
        self.lines.push(line.to_owned());
    }

    /// All lines collected so far, in insertion order.
    pub fn lines(&self) -> (r: &Vec<String>)
        ensures
            r@ == self@,
    {
        &self.lines
    }
}

} // verus!
