//! The debug-info lookup surface: address to source line, address to
//! enclosing function, and source line or function name to address.
//!
//! The tables are filled from the target's debugging information by the
//! caller; the queries are total and answer `None` for what is unknown.
use vstd::prelude::*;
use crate::text::str_eq;

verus! {

/// One row of the line table: the code at `address` implements line
/// `number` of source file `file` (an index into the file list).
#[derive(Clone, Copy, Debug, PartialEq, Eq, Structural)]
pub struct LineRow {
    pub file: usize,
    pub number: usize,
    pub address: usize,
}

/// A function: its name, the file it is defined in and its code range
/// `[low, high)`; `low` is its entry address.
pub struct FunctionRow {
    pub name: String,
    pub file: usize,
    pub low: usize,
    pub high: usize,
}

/// A source location.
pub struct SourceLine {
    pub file: String,
    pub number: usize,
}

/// Lookup tables over a target's debugging information. The first file is
/// the primary source file.
pub struct DebugInfo {
    files: Vec<String>,
    lines: Vec<LineRow>,
    functions: Vec<FunctionRow>,
}

/// Function `i` of `fs` contains `addr`.
pub open spec fn contains_addr(fs: Seq<FunctionRow>, i: int, addr: usize) -> bool {
    0 <= i < fs.len() && fs[i].low <= addr < fs[i].high
}

/// Function `i` is the innermost function containing `addr`: of those that
/// contain it, the one that starts last (the first such in table order).
pub open spec fn innermost_at(fs: Seq<FunctionRow>, addr: usize, i: int) -> bool {
    &&& contains_addr(fs, i, addr)
    &&& forall|j: int|
        #[trigger] contains_addr(fs, j, addr) ==> fs[j].low < fs[i].low || (fs[j].low == fs[i].low
            && i <= j)
}

/// Row `i` is the line-table row in effect at `addr`: the one with the
/// greatest address not above `addr` (the first such in table order).
pub open spec fn row_at(ls: Seq<LineRow>, addr: usize, i: int) -> bool {
    &&& 0 <= i < ls.len()
    &&& ls[i].address <= addr
    &&& forall|j: int|
        0 <= j < ls.len() && #[trigger] ls[j].address <= addr ==> ls[j].address < ls[i].address || (
        ls[j].address == ls[i].address && i <= j)
}

/// Row `i` is the first code for line `number` of file `file`: the lowest
/// address among that line's rows (the first such in table order).
pub open spec fn first_row_of_line(ls: Seq<LineRow>, file: usize, number: usize, i: int) -> bool {
    &&& 0 <= i < ls.len()
    &&& ls[i].file == file && ls[i].number == number
    &&& forall|j: int|
        0 <= j < ls.len() && #[trigger] ls[j].file == file && ls[j].number == number ==> ls[i].address
            < ls[j].address || (ls[i].address == ls[j].address && i <= j)
}

/// Function `i` is the first function in table order named `name`, within
/// file `file` if one is given.
pub open spec fn first_named(fs: Seq<FunctionRow>, file: Option<usize>, name: Seq<char>, i: int) -> bool {
    &&& 0 <= i < fs.len()
    &&& matches_name(fs, file, name, i)
    &&& forall|j: int| 0 <= j < i ==> !#[trigger] matches_name(fs, file, name, j)
}

/// Function `i` is named `name` and, if a file is given, defined in it.
pub open spec fn matches_name(fs: Seq<FunctionRow>, file: Option<usize>, name: Seq<char>, i: int) -> bool {
    fs[i].name@ == name && (file is None || fs[i].file == file->Some_0)
}

/// Index of the first file named `name`.
pub open spec fn first_file_named(files: Seq<String>, name: Seq<char>, i: int) -> bool {
    &&& 0 <= i < files.len()
    &&& files[i]@ == name
    &&& forall|j: int| 0 <= j < i ==> #[trigger] files[j]@ != name
}

/// File `t` is the one a lookup in `file` searches: the first file of that
/// name, or the primary (first) file when none is named.
pub open spec fn target_file(files: Seq<String>, file: Option<&str>, t: int) -> bool {
    match file {
        None => files.len() > 0 && t == 0,
        Some(name) => first_file_named(files, name@, t),
    }
}

/// `t` is the scope a function lookup in `file` searches: every file when
/// none is named, else the first file of that name.
pub open spec fn function_scope(files: Seq<String>, file: Option<&str>, t: Option<usize>) -> bool {
    match file {
        None => t is None,
        Some(name) => t is Some && first_file_named(files, name@, t->Some_0 as int),
    }
}

/// `r` is what a lookup of function `name` in `file` answers: the entry of
/// the first function of that name in the searched scope, or `None` when the
/// scope has none.
pub open spec fn function_address(info: &DebugInfo, file: Option<&str>, name: Seq<char>, r: Option<usize>) -> bool {
    &&& r is Some ==> exists|t: Option<usize>, i: int| #[trigger] function_scope(info.files(), file, t)
        && #[trigger] first_named(info.functions(), t, name, i) && r->Some_0 == info.functions()[i].low
    &&& r is None ==> forall|t: Option<usize>| #[trigger] function_scope(info.files(), file, t) ==>
        forall|j: int| 0 <= j < info.functions().len() ==> !#[trigger] matches_name(info.functions(), t, name, j)
}

impl DebugInfo {
    /// The source files; the first is the primary one.
    pub closed spec fn files(&self) -> Seq<String> {
        self.files@
    }

    /// The line table.
    pub closed spec fn lines(&self) -> Seq<LineRow> {
        self.lines@
    }

    /// The function table.
    pub closed spec fn functions(&self) -> Seq<FunctionRow> {
        self.functions@
    }

    /// Every row and function names a file of the list.
    pub open spec fn wf(&self) -> bool {
        &&& forall|i: int| 0 <= i < self.lines().len() ==> #[trigger] self.lines()[i].file < self.files().len()
        &&& forall|i: int| 0 <= i < self.functions().len() ==> #[trigger] self.functions()[i].file < self.files().len()
    }

    /// No two functions share a name.
    pub open spec fn names_unique(&self) -> bool {
        forall|i: int, j: int|
            0 <= i < self.functions().len() && 0 <= j < self.functions().len() && i != j ==> #[trigger] self.functions()[i].name@
                != #[trigger] self.functions()[j].name@
    }

    /// Builds the tables; `None` if a row or a function names a file that is
    /// not in `files`.
    pub fn new(files: Vec<String>, lines: Vec<LineRow>, functions: Vec<FunctionRow>) -> (r: Option<DebugInfo>)
        ensures
            (r is Some) == ((forall|i: int| 0 <= i < lines@.len() ==> #[trigger] lines@[i].file < files@.len())
                && (forall|i: int| 0 <= i < functions@.len() ==> #[trigger] functions@[i].file < files@.len())),
            r is Some ==> r->Some_0.wf() && r->Some_0.files() == files@ && r->Some_0.lines() == lines@
                && r->Some_0.functions() == functions@,
    {
        let mut i: usize = 0;
        while i < lines.len()
            invariant
                i <= lines@.len(),
                forall|k: int| 0 <= k < i ==> #[trigger] lines@[k].file < files@.len(),
            decreases lines@.len() - i,
        {
            if lines[i].file >= files.len() {
                return None;
            }
            i = i + 1;
        }
        let mut j: usize = 0;
        while j < functions.len()
            invariant
                j <= functions@.len(),
                forall|k: int| 0 <= k < j ==> #[trigger] functions@[k].file < files@.len(),
            decreases functions@.len() - j,
        {
            if functions[j].file >= files.len() {
                return None;
            }
            j = j + 1;
        }
        Some(DebugInfo { files, lines, functions })
    }

    /// The source line whose code is in effect at `addr`.
    pub fn line_for_address(&self, addr: usize) -> (r: Option<SourceLine>)
        requires
            self.wf(),
        ensures
            r is None <==> forall|j: int| 0 <= j < self.lines().len() ==> #[trigger] self.lines()[j].address > addr,
            r is Some ==> exists|i: int| #[trigger] row_at(self.lines(), addr, i)
                && r->Some_0.number == self.lines()[i].number
                && r->Some_0.file@ == self.files()[self.lines()[i].file as int]@,
    {
        let mut best: Option<usize> = None;
        let mut k: usize = 0;
        while k < self.lines.len()
            invariant
                k <= self.lines@.len(),
                best is None ==> forall|j: int| 0 <= j < k ==> #[trigger] self.lines@[j].address > addr,
                best is Some ==> {
                    let b = best->Some_0 as int;
                    &&& 0 <= b < k
                    &&& self.lines@[b].address <= addr
                    &&& forall|j: int|
                        0 <= j < k && #[trigger] self.lines@[j].address <= addr ==> self.lines@[j].address
                            < self.lines@[b].address || (self.lines@[j].address == self.lines@[b].address && b <= j)
                },
            decreases self.lines@.len() - k,
        {
            let row = self.lines[k];
            if row.address <= addr {
                match best {
                    None => {
                        best = Some(k);
                    },
                    Some(b) => {
                        if row.address > self.lines[b].address {
                            best = Some(k);
                        }
                    },
                }
            }
            k = k + 1;
        }
        match best {
            None => None,
            Some(b) => {
                let row = self.lines[b];
                assert(self.lines()[b as int].file < self.files().len());
                let file = self.files[row.file].clone();
                assert(row_at(self.lines(), addr, b as int));
                Some(SourceLine { file, number: row.number })
            },
        }
    }

    /// The name of the innermost function whose code range contains `addr`.
    pub fn function_for_address(&self, addr: usize) -> (r: Option<String>)
        ensures
            r is None <==> forall|j: int| !#[trigger] contains_addr(self.functions(), j, addr),
            r is Some ==> exists|i: int| #[trigger] innermost_at(self.functions(), addr, i)
                && r->Some_0@ == self.functions()[i].name@,
    {
        let mut best: Option<usize> = None;
        let mut k: usize = 0;
        while k < self.functions.len()
            invariant
                k <= self.functions@.len(),
                best is None ==> forall|j: int| 0 <= j < k ==> !#[trigger] contains_addr(self.functions@, j, addr),
                best is Some ==> {
                    let b = best->Some_0 as int;
                    &&& 0 <= b < k
                    &&& contains_addr(self.functions@, b, addr)
                    &&& forall|j: int|
                        0 <= j < k && #[trigger] contains_addr(self.functions@, j, addr) ==> self.functions@[j].low
                            < self.functions@[b].low || (self.functions@[j].low == self.functions@[b].low && b <= j)
                },
            decreases self.functions@.len() - k,
        {
            let f = &self.functions[k];
            if f.low <= addr && addr < f.high {
                match best {
                    None => {
                        best = Some(k);
                    },
                    Some(b) => {
                        if f.low > self.functions[b].low {
                            best = Some(k);
                        }
                    },
                }
            }
            k = k + 1;
        }
        match best {
            None => None,
            Some(b) => {
                assert(innermost_at(self.functions(), addr, b as int));
                Some(self.functions[b].name.clone())
            },
        }
    }

    fn file_index(&self, name: &str) -> (r: Option<usize>)
        ensures
            r is None <==> forall|j: int| 0 <= j < self.files().len() ==> #[trigger] self.files()[j]@ != name@,
            r is Some ==> first_file_named(self.files(), name@, r->Some_0 as int),
    {
        let mut k: usize = 0;
        while k < self.files.len()
            invariant
                k <= self.files@.len(),
                forall|j: int| 0 <= j < k ==> #[trigger] self.files@[j]@ != name@,
            decreases self.files@.len() - k,
        {
            if str_eq(self.files[k].as_str(), name) {
                assert(first_file_named(self.files(), name@, k as int));
                return Some(k);
            }
            k = k + 1;
        }
        None
    }

    /// The first machine address implementing line `number` of `file`, or of
    /// the primary source file when no file is given.
    pub fn address_for_line(&self, file: Option<&str>, number: usize) -> (r: Option<usize>)
        ensures
            r is Some ==> exists|t: usize, i: int| #[trigger] target_file(self.files(), file, t as int)
                && #[trigger] first_row_of_line(self.lines(), t, number, i)
                && r->Some_0 == self.lines()[i].address,
            r is None ==> forall|t: int| #[trigger] target_file(self.files(), file, t) ==>
                forall|j: int| 0 <= j < self.lines().len() ==> !(#[trigger] self.lines()[j].file == t && self.lines()[j].number == number),
    {
        let fi = match file {
            None => if self.files.len() > 0 {
                Some(0)
            } else {
                None
            },
            Some(name) => self.file_index(name),
        };
        match fi {
            None => None,
            Some(t) => {
                let mut best: Option<usize> = None;
                let mut k: usize = 0;
                while k < self.lines.len()
                    invariant
                        k <= self.lines@.len(),
                        target_file(self.files(), file, t as int),
                        best is None ==> forall|j: int| 0 <= j < k ==> !(#[trigger] self.lines@[j].file == t && self.lines@[j].number == number),
                        best is Some ==> {
                            let b = best->Some_0 as int;
                            &&& 0 <= b < k
                            &&& self.lines@[b].file == t && self.lines@[b].number == number
                            &&& forall|j: int|
                                0 <= j < k && #[trigger] self.lines@[j].file == t && self.lines@[j].number == number ==> self.lines@[b].address
                                    < self.lines@[j].address || (self.lines@[b].address == self.lines@[j].address && b <= j)
                        },
                    decreases self.lines@.len() - k,
                {
                    let row = self.lines[k];
                    if row.file == t && row.number == number {
                        match best {
                            None => {
                                best = Some(k);
                            },
                            Some(b) => {
                                if row.address < self.lines[b].address {
                                    best = Some(k);
                                }
                            },
                        }
                    }
                    k = k + 1;
                }
                match best {
                    None => None,
                    Some(b) => {
                        assert(first_row_of_line(self.lines(), t, number, b as int));
                        Some(self.lines[b].address)
                    },
                }
            },
        }
    }

    /// The entry address of the first function named `name`, within `file`
    /// if one is given.
    pub fn address_for_function(&self, file: Option<&str>, name: &str) -> (r: Option<usize>)
        ensures
            function_address(self, file, name@, r),
    {
        let t: Option<usize> = match file {
            None => None,
            Some(fname) => {
                let fi = self.file_index(fname);
                match fi {
                    None => {
                        return None;
                    },
                    Some(f) => Some(f),
                }
            },
        };
        assert(function_scope(self.files(), file, t));
        let mut k: usize = 0;
        while k < self.functions.len()
            invariant
                k <= self.functions@.len(),
                forall|j: int| 0 <= j < k ==> !#[trigger] matches_name(self.functions@, t, name@, j),
                function_scope(self.files(), file, t),
            decreases self.functions@.len() - k,
        {
            let f = &self.functions[k];
            let file_ok = match t {
                None => true,
                Some(fi) => f.file == fi,
            };
            if file_ok && str_eq(f.name.as_str(), name) {
                assert(first_named(self.functions(), t, name@, k as int));
                assert(function_scope(self.files(), file, t));
                return Some(f.low);
            }
            k = k + 1;
        }
        None
    }
}

/// Looking a function up by the name found at its entry gives the entry
/// back: when the innermost function at `addr` is named `name` and starts at
/// `addr`, and no two functions share a name, the lookup of `name` answers
/// `addr`.
pub proof fn lemma_function_entry_round_trip(info: &DebugInfo, addr: usize, name: Seq<char>, r: Option<usize>)
    requires
        info.names_unique(),
        exists|i: int| #[trigger] innermost_at(info.functions(), addr, i)
            && info.functions()[i].name@ == name && info.functions()[i].low == addr,
        function_address(info, None, name, r),
    ensures
        r == Some(addr),
{
    let fs = info.functions();
    let i = choose|i: int| #[trigger] innermost_at(fs, addr, i) && fs[i].name@ == name && fs[i].low == addr;
    let none: Option<usize> = None;
    assert(function_scope(info.files(), None, none));
    assert(matches_name(fs, none, name, i));
    if r is Some {
        let (t, k) = choose|t: Option<usize>, k: int| #[trigger] function_scope(info.files(), None, t)
            && #[trigger] first_named(fs, t, name, k) && r->Some_0 == fs[k].low;
        if k != i {
            assert(fs[k].name@ != fs[i].name@);
        }
    }
}

} // verus!
