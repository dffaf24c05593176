//! The format tables that the library provides: vectors, looked up by
//! index; name maps, looked up by name; tuples of tables, searched in
//! order; and references to tables.

use vstd::prelude::*;
use crate::error::SingleFmtErrorModel;
use crate::fmt::{BoxOrRef, Fmt, Request};
use crate::name_map::NameMap;
use crate::number::{decimal, parse_decimal};
use crate::table::FormatTable;
use crate::text::to_chars;

verus! {

/// The index that a placeholder name writes: decimal digits, after an
/// optional `+`.
pub open spec fn index_of(name: Seq<char>) -> Option<nat> {
    if name.len() > 0 && name[0] == '+' {
        decimal(name.skip(1))
    } else {
        decimal(name)
    }
}

impl<'t, T: FormatTable + ?Sized> FormatTable for &'t T {
    open spec fn resolves(&self, name: Seq<char>) -> bool {
        (**self).resolves(name)
    }

    open spec fn render_entry(&self, name: Seq<char>, req: Request) -> Result<Seq<char>, SingleFmtErrorModel> {
        (**self).render_entry(name, req)
    }

    fn get_fmt<'a, 'b>(&'a self, name: &'b str) -> (r: Option<BoxOrRef<'a, dyn Fmt>>) {
        (**self).get_fmt(name)
    }
}

/// Reads the index that `name` writes, if it writes one that fits.
fn parse_index(name: &str) -> (r: Option<usize>)
    ensures
        r == match index_of(name@) {
            Some(n) => if n <= usize::MAX {
                Some(n as usize)
            } else {
                None
            },
            None => None,
        },
{
    let chars = to_chars(name);
    let from: usize = if chars.len() > 0 && chars[0] == '+' {
        1
    } else {
        0
    };
    assert(chars@.skip(0) =~= chars@);
    parse_decimal(chars.as_slice(), from)
}

/// A vector resolves the names that write the index of one of its elements.
impl<'t> FormatTable for Vec<&'t dyn Fmt> {
    open spec fn resolves(&self, name: Seq<char>) -> bool {
        match index_of(name) {
            Some(i) => i < self@.len(),
            None => false,
        }
    }

    open spec fn render_entry(&self, name: Seq<char>, req: Request) -> Result<Seq<char>, SingleFmtErrorModel> {
        (*self@[index_of(name).unwrap() as int]).render(req)
    }

    fn get_fmt<'a, 'b>(&'a self, name: &'b str) -> (r: Option<BoxOrRef<'a, dyn Fmt>>) {
        let len = self.len();
        match parse_index(name) {
            Some(index) => {
                if index < len {
                    Some(BoxOrRef::Ref(&self[index]))
                } else {
                    None
                }
            },
            None => None,
        }
    }
}

/// A vector resolves the names that write the index of one of its elements.
impl FormatTable for Vec<Box<dyn Fmt>> {
    open spec fn resolves(&self, name: Seq<char>) -> bool {
        match index_of(name) {
            Some(i) => i < self@.len(),
            None => false,
        }
    }

    open spec fn render_entry(&self, name: Seq<char>, req: Request) -> Result<Seq<char>, SingleFmtErrorModel> {
        (*self@[index_of(name).unwrap() as int]).render(req)
    }

    fn get_fmt<'a, 'b>(&'a self, name: &'b str) -> (r: Option<BoxOrRef<'a, dyn Fmt>>) {
        let len = self.len();
        match parse_index(name) {
            Some(index) => {
                if index < len {
                    Some(BoxOrRef::Ref(&self[index]))
                } else {
                    None
                }
            },
            None => None,
        }
    }
}

/// A name map resolves the names that it holds.
impl<'t> FormatTable for NameMap<&'t dyn Fmt> {
    open spec fn resolves(&self, name: Seq<char>) -> bool {
        self@.contains_key(name)
    }

    open spec fn render_entry(&self, name: Seq<char>, req: Request) -> Result<Seq<char>, SingleFmtErrorModel> {
        (*self@[name]).render(req)
    }

    fn get_fmt<'a, 'b>(&'a self, name: &'b str) -> (r: Option<BoxOrRef<'a, dyn Fmt>>) {
        match self.get(name) {
            Some(value) => Some(BoxOrRef::Ref(value)),
            None => None,
        }
    }
}

/// A name map resolves the names that it holds.
impl FormatTable for NameMap<Box<dyn Fmt>> {
    open spec fn resolves(&self, name: Seq<char>) -> bool {
        self@.contains_key(name)
    }

    open spec fn render_entry(&self, name: Seq<char>, req: Request) -> Result<Seq<char>, SingleFmtErrorModel> {
        (*self@[name]).render(req)
    }

    fn get_fmt<'a, 'b>(&'a self, name: &'b str) -> (r: Option<BoxOrRef<'a, dyn Fmt>>) {
        match self.get(name) {
            Some(value) => Some(BoxOrRef::Ref(value)),
            None => None,
        }
    }
}

/// A tuple of tables resolves a name through the first of them that
/// resolves it.
impl<A: FormatTable, B: FormatTable> FormatTable for (A, B) {
    open spec fn resolves(&self, name: Seq<char>) -> bool {
        self.0.resolves(name) || self.1.resolves(name)
    }

    open spec fn render_entry(&self, name: Seq<char>, req: Request) -> Result<Seq<char>, SingleFmtErrorModel> {
        if self.0.resolves(name) {
            self.0.render_entry(name, req)
        } else {
            self.1.render_entry(name, req)
        }
    }

    fn get_fmt<'a, 'b>(&'a self, name: &'b str) -> (r: Option<BoxOrRef<'a, dyn Fmt>>) {
        match self.0.get_fmt(name) {
            Some(found) => Some(found),
            None => {
                self.1.get_fmt(name)
            },
        }
    }
}

/// A tuple of tables resolves a name through the first of them that
/// resolves it.
impl<A: FormatTable, B: FormatTable, C: FormatTable> FormatTable for (A, B, C) {
    open spec fn resolves(&self, name: Seq<char>) -> bool {
        self.0.resolves(name) || self.1.resolves(name) || self.2.resolves(name)
    }

    open spec fn render_entry(&self, name: Seq<char>, req: Request) -> Result<Seq<char>, SingleFmtErrorModel> {
        if self.0.resolves(name) {
            self.0.render_entry(name, req)
        } else if self.1.resolves(name) {
            self.1.render_entry(name, req)
        } else {
            self.2.render_entry(name, req)
        }
    }

    fn get_fmt<'a, 'b>(&'a self, name: &'b str) -> (r: Option<BoxOrRef<'a, dyn Fmt>>) {
        match self.0.get_fmt(name) {
            Some(found) => Some(found),
            None => {
                match self.1.get_fmt(name) {
                    Some(found) => Some(found),
                    None => {
                        self.2.get_fmt(name)
                    },
                }
            },
        }
    }
}

/// A tuple of tables resolves a name through the first of them that
/// resolves it.
impl<A: FormatTable, B: FormatTable, C: FormatTable, D: FormatTable> FormatTable for (A, B, C, D) {
    open spec fn resolves(&self, name: Seq<char>) -> bool {
        self.0.resolves(name) || self.1.resolves(name) || self.2.resolves(name) || self.3.resolves(name)
    }

    open spec fn render_entry(&self, name: Seq<char>, req: Request) -> Result<Seq<char>, SingleFmtErrorModel> {
        if self.0.resolves(name) {
            self.0.render_entry(name, req)
        } else if self.1.resolves(name) {
            self.1.render_entry(name, req)
        } else if self.2.resolves(name) {
            self.2.render_entry(name, req)
        } else {
            self.3.render_entry(name, req)
        }
    }

    fn get_fmt<'a, 'b>(&'a self, name: &'b str) -> (r: Option<BoxOrRef<'a, dyn Fmt>>) {
        match self.0.get_fmt(name) {
            Some(found) => Some(found),
            None => {
                match self.1.get_fmt(name) {
                    Some(found) => Some(found),
                    None => {
                        match self.2.get_fmt(name) {
                            Some(found) => Some(found),
                            None => {
                                self.3.get_fmt(name)
                            },
                        }
                    },
                }
            },
        }
    }
}

/// A tuple of tables resolves a name through the first of them that
/// resolves it.
impl<A: FormatTable, B: FormatTable, C: FormatTable, D: FormatTable, E: FormatTable> FormatTable for (A, B, C, D, E) {
    open spec fn resolves(&self, name: Seq<char>) -> bool {
        self.0.resolves(name) || self.1.resolves(name) || self.2.resolves(name) || self.3.resolves(name) || self.4.resolves(name)
    }

    open spec fn render_entry(&self, name: Seq<char>, req: Request) -> Result<Seq<char>, SingleFmtErrorModel> {
        if self.0.resolves(name) {
            self.0.render_entry(name, req)
        } else if self.1.resolves(name) {
            self.1.render_entry(name, req)
        } else if self.2.resolves(name) {
            self.2.render_entry(name, req)
        } else if self.3.resolves(name) {
            self.3.render_entry(name, req)
        } else {
            self.4.render_entry(name, req)
        }
    }

    fn get_fmt<'a, 'b>(&'a self, name: &'b str) -> (r: Option<BoxOrRef<'a, dyn Fmt>>) {
        match self.0.get_fmt(name) {
            Some(found) => Some(found),
            None => {
                match self.1.get_fmt(name) {
                    Some(found) => Some(found),
                    None => {
                        match self.2.get_fmt(name) {
                            Some(found) => Some(found),
                            None => {
                                match self.3.get_fmt(name) {
                                    Some(found) => Some(found),
                                    None => {
                                        self.4.get_fmt(name)
                                    },
                                }
                            },
                        }
                    },
                }
            },
        }
    }
}

/// A tuple of tables resolves a name through the first of them that
/// resolves it.
impl<A: FormatTable, B: FormatTable, C: FormatTable, D: FormatTable, E: FormatTable, F: FormatTable> FormatTable for (A, B, C, D, E, F) {
    open spec fn resolves(&self, name: Seq<char>) -> bool {
        self.0.resolves(name) || self.1.resolves(name) || self.2.resolves(name) || self.3.resolves(name) || self.4.resolves(name) || self.5.resolves(name)
    }

    open spec fn render_entry(&self, name: Seq<char>, req: Request) -> Result<Seq<char>, SingleFmtErrorModel> {
        if self.0.resolves(name) {
            self.0.render_entry(name, req)
        } else if self.1.resolves(name) {
            self.1.render_entry(name, req)
        } else if self.2.resolves(name) {
            self.2.render_entry(name, req)
        } else if self.3.resolves(name) {
            self.3.render_entry(name, req)
        } else if self.4.resolves(name) {
            self.4.render_entry(name, req)
        } else {
            self.5.render_entry(name, req)
        }
    }

    fn get_fmt<'a, 'b>(&'a self, name: &'b str) -> (r: Option<BoxOrRef<'a, dyn Fmt>>) {
        match self.0.get_fmt(name) {
            Some(found) => Some(found),
            None => {
                match self.1.get_fmt(name) {
                    Some(found) => Some(found),
                    None => {
                        match self.2.get_fmt(name) {
                            Some(found) => Some(found),
                            None => {
                                match self.3.get_fmt(name) {
                                    Some(found) => Some(found),
                                    None => {
                                        match self.4.get_fmt(name) {
                                            Some(found) => Some(found),
                                            None => {
                                                self.5.get_fmt(name)
                                            },
                                        }
                                    },
                                }
                            },
                        }
                    },
                }
            },
        }
    }
}

} // verus!

