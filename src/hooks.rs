//! The hooked functions and the registry of their declared signatures.
use crate::ast::{FnDecl, FnDeclV};
use vstd::prelude::*;
use vstd::string::StringExecFns;

verus! {

/// The allocation-lifecycle functions whose calls are reported to the trace
/// runtime.
#[derive(Clone, Copy, Debug, PartialEq, Eq, Structural)]
pub enum HookFn {
    Malloc,
    Free,
    Calloc,
    Realloc,
    Reallocarray,
}

/// The name under which a hooked function is declared and called.
pub open spec fn hook_name(h: HookFn) -> Seq<char> {
    match h {
        HookFn::Malloc => seq!['m', 'a', 'l', 'l', 'o', 'c'],
        HookFn::Free => seq!['f', 'r', 'e', 'e'],
        HookFn::Calloc => seq!['c', 'a', 'l', 'l', 'o', 'c'],
        HookFn::Realloc => seq!['r', 'e', 'a', 'l', 'l', 'o', 'c'],
        HookFn::Reallocarray => seq!['r', 'e', 'a', 'l', 'l', 'o', 'c', 'a', 'r', 'r', 'a', 'y'],
    }
}

/// The hooked function that a name denotes, if any.
pub open spec fn hook_by_name(name: Seq<char>) -> Option<HookFn> {
    if name == hook_name(HookFn::Malloc) {
        Some(HookFn::Malloc)
    } else if name == hook_name(HookFn::Free) {
        Some(HookFn::Free)
    } else if name == hook_name(HookFn::Calloc) {
        Some(HookFn::Calloc)
    } else if name == hook_name(HookFn::Realloc) {
        Some(HookFn::Realloc)
    } else if name == hook_name(HookFn::Reallocarray) {
        Some(HookFn::Reallocarray)
    } else {
        None
    }
}

/// Whether `s` spells exactly the characters `t`.
pub fn str_is(s: &str, t: &str) -> (r: bool)
    ensures
        r == (s@ == t@),
{
    let n = s.unicode_len();
    if n != t.unicode_len() {
        return false;
    }
    let mut i: usize = 0;
    while i < n
        invariant
            n == s@.len(),
            n == t@.len(),
            i <= n,
            forall|j: int| 0 <= j < i ==> s@[j] == t@[j],
        decreases n - i,
    {
        if s.get_char(i) != t.get_char(i) {
            return false;
        }
        i += 1;
    }
    assert(s@ =~= t@);
    true
}

impl HookFn {
    /// The name of this function.
    pub fn name(self) -> (r: String)
        ensures
            r@ == hook_name(self),
    {
        proof {
            reveal_strlit("malloc");
            reveal_strlit("free");
            reveal_strlit("calloc");
            reveal_strlit("realloc");
            reveal_strlit("reallocarray");
            assert("malloc"@ =~= hook_name(HookFn::Malloc));
            assert("free"@ =~= hook_name(HookFn::Free));
            assert("calloc"@ =~= hook_name(HookFn::Calloc));
            assert("realloc"@ =~= hook_name(HookFn::Realloc));
            assert("reallocarray"@ =~= hook_name(HookFn::Reallocarray));
        }
        match self {
            HookFn::Malloc => String::from_str("malloc"),
            HookFn::Free => String::from_str("free"),
            HookFn::Calloc => String::from_str("calloc"),
            HookFn::Realloc => String::from_str("realloc"),
            HookFn::Reallocarray => String::from_str("reallocarray"),
        }
    }

    /// The hooked function that `name` denotes, if any.
    pub fn from_name(name: &str) -> (r: Option<HookFn>)
        ensures
            r == hook_by_name(name@),
    {
        proof {
            reveal_strlit("malloc");
            assert("malloc"@ =~= hook_name(HookFn::Malloc));
            reveal_strlit("free");
            assert("free"@ =~= hook_name(HookFn::Free));
            reveal_strlit("calloc");
            assert("calloc"@ =~= hook_name(HookFn::Calloc));
            reveal_strlit("realloc");
            assert("realloc"@ =~= hook_name(HookFn::Realloc));
            reveal_strlit("reallocarray");
            assert("reallocarray"@ =~= hook_name(HookFn::Reallocarray));
        }
        if str_is(name, "malloc") {
            Some(HookFn::Malloc)
        } else if str_is(name, "free") {
            Some(HookFn::Free)
        } else if str_is(name, "calloc") {
            Some(HookFn::Calloc)
        } else if str_is(name, "realloc") {
            Some(HookFn::Realloc)
        } else if str_is(name, "reallocarray") {
            Some(HookFn::Reallocarray)
        } else {
            None
        }
    }
}

pub open spec fn hook_slot(h: HookFn) -> int {
    match h {
        HookFn::Malloc => 0,
        HookFn::Free => 1,
        HookFn::Calloc => 2,
        HookFn::Realloc => 3,
        HookFn::Reallocarray => 4,
    }
}

impl HookFn {
    fn slot(self) -> (r: usize)
        ensures
            r == hook_slot(self),
    {
        match self {
            HookFn::Malloc => 0,
            HookFn::Free => 1,
            HookFn::Calloc => 2,
            HookFn::Realloc => 3,
            HookFn::Reallocarray => 4,
        }
    }
}

/// The declared signature of each hooked function seen so far.
pub struct HookRegistry {
    decls: Vec<Option<FnDecl>>,
}

impl HookRegistry {
    pub closed spec fn view(&self) -> Map<HookFn, FnDeclV> {
        Map::new(
            |h: HookFn| self.decls@[hook_slot(h)] is Some,
            |h: HookFn| self.decls@[hook_slot(h)]->Some_0@,
        )
    }

    pub closed spec fn wf(&self) -> bool {
        self.decls@.len() == 5
    }

    pub fn new() -> (r: HookRegistry)
        ensures
            r.wf(),
            r@ == Map::<HookFn, FnDeclV>::empty(),
    {
        let r = HookRegistry { decls: vec![None, None, None, None, None] };
        assert(r@ =~= Map::<HookFn, FnDeclV>::empty());
        r
    }

    /// Records the signature of `h`, replacing any earlier one.
    pub fn register(&mut self, h: HookFn, decl: FnDecl)
        requires
            old(self).wf(),
        ensures
            final(self).wf(),
            final(self)@ == old(self)@.insert(h, decl@),
    {
        let ghost d = decl@;
        let i = h.slot();
        self.decls[i] = Some(decl);
        assert(self@ =~= old(self)@.insert(h, d)) by {
            assert forall|g: HookFn| hook_slot(g) == hook_slot(h) implies g == h by {}
        }
    }

    /// Records the signature of a foreign function if its name is that of a
    /// hooked function; any other declaration leaves the registry as it was.
    pub fn register_foreign_fn(&mut self, name: &str, decl: &FnDecl)
        requires
            old(self).wf(),
        ensures
            final(self).wf(),
            match hook_by_name(name@) {
                Some(h) => final(self)@ == old(self)@.insert(h, decl@),
                None => final(self)@ == old(self)@,
            },
    {
        match HookFn::from_name(name) {
            Some(h) => self.register(h, decl.copy()),
            None => {},
        }
    }

    /// The recorded signature of `h`, if any.
    pub fn lookup(&self, h: HookFn) -> (r: Option<&FnDecl>)
        requires
            self.wf(),
        ensures
            match r {
                Some(d) => self@.contains_key(h) && self@[h] == d@,
                None => !self@.contains_key(h),
            },
    {
        self.decls[h.slot()].as_ref()
    }
}

} // verus!
