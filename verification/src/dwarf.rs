//! A plain-data model of the target's debug information.
//!
//! The debugger needs four lookups: address to enclosing function name,
//! address to source line, function name to entry address, and source line
//! to address.  This module holds those tables as plain values — a function
//! table of name and address range, and a line table of file, line number
//! and starting address — with the lookups specified exactly.  Whatever
//! reads the target executable's debug sections fills these tables in
//! outside the library.

use vstd::prelude::*;

verus! {

use crate::strutil::str_eq;

/// One function of the target: its name and the half-open address range
/// `[low, high)` its code occupies.
pub struct FunctionEntry {
    pub name: String,
    pub low: usize,
    pub high: usize,
}

/// One row of the line table: source position and the address of the first
/// instruction generated for it.
pub struct LineEntry {
    pub file: String,
    pub number: usize,
    pub address: usize,
}

/// Whether function entry `f` covers the address `addr`.
pub open spec fn covers(f: FunctionEntry, addr: usize) -> bool {
    f.low <= addr < f.high
}

/// The index of the first function entry covering `addr`.
pub open spec fn first_covering(s: Seq<FunctionEntry>, addr: usize) -> Option<int>
    decreases s.len(),
{
    if s.len() == 0 {
        None
    } else if covers(s[0], addr) {
        Some(0)
    } else {
        match first_covering(s.drop_first(), addr) {
            Some(i) => Some(i + 1),
            None => None,
        }
    }
}

/// The index of the first function entry named `name`.
pub open spec fn first_named(s: Seq<FunctionEntry>, name: Seq<char>) -> Option<int>
    decreases s.len(),
{
    if s.len() == 0 {
        None
    } else if s[0].name@ == name {
        Some(0)
    } else {
        match first_named(s.drop_first(), name) {
            Some(i) => Some(i + 1),
            None => None,
        }
    }
}

/// The index of the first line-table row for source line `line`.
pub open spec fn first_line_numbered(s: Seq<LineEntry>, line: usize) -> Option<int>
    decreases s.len(),
{
    if s.len() == 0 {
        None
    } else if s[0].number == line {
        Some(0)
    } else {
        match first_line_numbered(s.drop_first(), line) {
            Some(i) => Some(i + 1),
            None => None,
        }
    }
}

proof fn lemma_first_covering_none(s: Seq<FunctionEntry>, addr: usize)
    requires
        forall|j: int| 0 <= j < s.len() ==> !covers(#[trigger] s[j], addr),
    ensures
        first_covering(s, addr) is None,
    decreases s.len(),
{
    if s.len() > 0 {
        let d = s.drop_first();
        assert(forall|j: int| 0 <= j < d.len() ==> d[j] == s[j + 1]);
        lemma_first_covering_none(d, addr);
    }
}

proof fn lemma_first_covering_some(s: Seq<FunctionEntry>, addr: usize, i: int)
    requires
        0 <= i < s.len(),
        covers(s[i], addr),
        forall|j: int| 0 <= j < i ==> !covers(#[trigger] s[j], addr),
    ensures
        first_covering(s, addr) == Some(i),
    decreases i,
{
    if i > 0 {
        let d = s.drop_first();
        assert(forall|j: int| 0 <= j < d.len() ==> d[j] == s[j + 1]);
        lemma_first_covering_some(d, addr, i - 1);
    }
}

proof fn lemma_first_named_none(s: Seq<FunctionEntry>, name: Seq<char>)
    requires
        forall|j: int| 0 <= j < s.len() ==> (#[trigger] s[j]).name@ != name,
    ensures
        first_named(s, name) is None,
    decreases s.len(),
{
    if s.len() > 0 {
        let d = s.drop_first();
        assert(forall|j: int| 0 <= j < d.len() ==> d[j] == s[j + 1]);
        lemma_first_named_none(d, name);
    }
}

proof fn lemma_first_named_some(s: Seq<FunctionEntry>, name: Seq<char>, i: int)
    requires
        0 <= i < s.len(),
        s[i].name@ == name,
        forall|j: int| 0 <= j < i ==> (#[trigger] s[j]).name@ != name,
    ensures
        first_named(s, name) == Some(i),
    decreases i,
{
    if i > 0 {
        let d = s.drop_first();
        assert(forall|j: int| 0 <= j < d.len() ==> d[j] == s[j + 1]);
        lemma_first_named_some(d, name, i - 1);
    }
}

proof fn lemma_first_line_none(s: Seq<LineEntry>, line: usize)
    requires
        forall|j: int| 0 <= j < s.len() ==> (#[trigger] s[j]).number != line,
    ensures
        first_line_numbered(s, line) is None,
    decreases s.len(),
{
    if s.len() > 0 {
        let d = s.drop_first();
        assert(forall|j: int| 0 <= j < d.len() ==> d[j] == s[j + 1]);
        lemma_first_line_none(d, line);
    }
}

proof fn lemma_first_line_some(s: Seq<LineEntry>, line: usize, i: int)
    requires
        0 <= i < s.len(),
        s[i].number == line,
        forall|j: int| 0 <= j < i ==> (#[trigger] s[j]).number != line,
    ensures
        first_line_numbered(s, line) == Some(i),
    decreases i,
{
    if i > 0 {
        let d = s.drop_first();
        assert(forall|j: int| 0 <= j < d.len() ==> d[j] == s[j + 1]);
        lemma_first_line_some(d, line, i - 1);
    }
}

/// The index of the best line-table row for `addr`: among the rows whose
/// address does not exceed `addr`, the first row with the greatest
/// address.
pub open spec fn best_line_index(ls: Seq<LineEntry>, addr: usize) -> Option<int>
    decreases ls.len(),
{
    if ls.len() == 0 {
        None
    } else {
        let prev = best_line_index(ls.drop_last(), addr);
        let c = ls.last();
        match prev {
            None => if c.address <= addr {
                Some(ls.len() - 1)
            } else {
                None
            },
            Some(i) => if c.address <= addr && c.address > ls[i].address {
                Some(ls.len() - 1)
            } else {
                Some(i)
            },
        }
    }
}

/// The debug-information tables of one target executable.
pub struct DebugInfo {
    pub functions: Vec<FunctionEntry>,
    pub lines: Vec<LineEntry>,
}

impl DebugInfo {
    /// An empty set of tables: every lookup misses.
    pub fn new() -> (r: DebugInfo)
        ensures
            r.functions@.len() == 0,
            r.lines@.len() == 0,
    {
        DebugInfo { functions: Vec::new(), lines: Vec::new() }
    }

    /// The name of the function whose address range contains `addr` —
    /// the first such entry of the table — or `None` if no range does.
    pub fn function_at(&self, addr: usize) -> (r: Option<String>)
        ensures
            ({
                let b = first_covering(self.functions@, addr);
                match b {
                    Some(i) => r matches Some(name) && name@ == self.functions@[i].name@,
                    None => r is None,
                }
            }),
    {
        let n = self.functions.len();
        let mut i: usize = 0;
        while i < n
            invariant
                n == self.functions@.len(),
                0 <= i <= n,
                forall|j: int| 0 <= j < i ==> !covers(#[trigger] self.functions@[j], addr),
            decreases n - i,
        {
            let f = &self.functions[i];
            if f.low <= addr && addr < f.high {
                proof {
                    lemma_first_covering_some(self.functions@, addr, i as int);
                }
                return Some(f.name.clone());
            }
            i = i + 1;
        }
        proof {
            lemma_first_covering_none(self.functions@, addr);
        }
        None
    }

    /// The source position for `addr`: file and line number of the best
    /// line-table row for `addr`, or `None` if every row starts above
    /// `addr`.
    pub fn line_at(&self, addr: usize) -> (r: Option<(String, usize)>)
        ensures
            ({
                let b = best_line_index(self.lines@, addr);
                match b {
                    Some(i) => r matches Some(fl) && fl.0@ == self.lines@[i].file@ && fl.1
                        == self.lines@[i].number,
                    None => r is None,
                }
            }),
    {
        let n = self.lines.len();
        let mut best: Option<usize> = None;
        let mut i: usize = 0;
        proof {
            assert(self.lines@.subrange(0, 0) =~= Seq::<LineEntry>::empty());
        }
        while i < n
            invariant
                n == self.lines@.len(),
                0 <= i <= n,
                ({
                    let b = best_line_index(self.lines@.subrange(0, i as int), addr);
                    match best {
                        Some(k) => b == Some(k as int) && k < i,
                        None => b is None,
                    }
                }),
            decreases n - i,
        {
            let c = &self.lines[i];
            proof {
                assert(self.lines@.subrange(0, i + 1).drop_last() =~= self.lines@.subrange(
                    0,
                    i as int,
                ));
                assert(self.lines@.subrange(0, i + 1).last() == self.lines@[i as int]);
            }
            if c.address <= addr {
                match best {
                    None => {
                        best = Some(i);
                    },
                    Some(k) => {
                        if c.address > self.lines[k].address {
                            best = Some(i);
                        }
                    },
                }
            }
            i = i + 1;
        }
        proof {
            assert(self.lines@.subrange(0, n as int) =~= self.lines@);
        }
        match best {
            Some(k) => {
                let e = &self.lines[k];
                Some((e.file.clone(), e.number))
            },
            None => None,
        }
    }

    /// The index of the first function entry bearing `name`, if any.
    pub fn find_function(&self, name: &str) -> (r: Option<usize>)
        ensures
            ({
                let b = first_named(self.functions@, name@);
                match b {
                    Some(i) => r matches Some(j) && j as int == i && j < self.functions@.len(),
                    None => r is None,
                }
            }),
    {
        let n = self.functions.len();
        let mut i: usize = 0;
        while i < n
            invariant
                n == self.functions@.len(),
                0 <= i <= n,
                forall|j: int| 0 <= j < i ==> (#[trigger] self.functions@[j]).name@ != name@,
            decreases n - i,
        {
            if str_eq(self.functions[i].name.as_str(), name) {
                proof {
                    lemma_first_named_some(self.functions@, name@, i as int);
                }
                return Some(i);
            }
            i = i + 1;
        }
        proof {
            lemma_first_named_none(self.functions@, name@);
        }
        None
    }

    /// The entry address of the function table row `i`.
    pub fn function_addr(&self, i: usize) -> (r: usize)
        requires
            i < self.functions@.len(),
        ensures
            r == self.functions@[i as int].low,
    {
        self.functions[i].low
    }

    /// The address of the first line-table row for source line `line`, if
    /// any row is for that line.
    pub fn addr_of_line(&self, line: usize) -> (r: Option<usize>)
        ensures
            ({
                let b = first_line_numbered(self.lines@, line);
                match b {
                    Some(i) => r == Some(self.lines@[i].address),
                    None => r is None,
                }
            }),
    {
        let n = self.lines.len();
        let mut i: usize = 0;
        while i < n
            invariant
                n == self.lines@.len(),
                0 <= i <= n,
                forall|j: int| 0 <= j < i ==> (#[trigger] self.lines@[j]).number != line,
            decreases n - i,
        {
            if self.lines[i].number == line {
                proof {
                    lemma_first_line_some(self.lines@, line, i as int);
                }
                return Some(self.lines[i].address);
            }
            i = i + 1;
        }
        proof {
            lemma_first_line_none(self.lines@, line);
        }
        None
    }
}

} // verus!
