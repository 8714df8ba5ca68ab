//! Dispatch of lookups to handlers by the lookups' names.

use vstd::prelude::*;
use vstd::string::StringExecFns;
use crate::lookups::error::LookupError;
use crate::text::{prefix_each, prefixed, str_eq, string_views};

verus! {

/// Marker for the types that can name the lookups a handler takes.
pub trait LookupNameSealed {}

/// Decides by its name whether a lookup goes to a handler.
pub trait LookupName: LookupNameSealed {
    spec fn spec_check(&self, name: Seq<char>) -> bool;

    fn check(&self, name: &str) -> (r: bool)
        ensures
            r == self.spec_check(name@),
    ;
}

impl<'a> LookupNameSealed for &'a str {}

impl<'a> LookupName for &'a str {
    /// A name takes exactly the lookups of that name.
    open spec fn spec_check(&self, name: Seq<char>) -> bool {
        (*self)@ == name
    }

    fn check(&self, name: &str) -> (r: bool) {
        str_eq(*self, name)
    }
}

/// The handler that a lookup goes to.
#[derive(Clone, Copy, Debug, PartialEq, Eq, Structural)]
pub enum HandlerSlot {
    /// The registered handler of this index.
    Handler(usize),
    /// The fallback handler.
    Fallback,
}

/// Stores the names of several lookup handlers, in the order they were registered, and
/// whether a fallback handler takes what none of them takes.
pub struct LookupMux<N: LookupName> {
    handlers: Vec<N>,
    fallback: bool,
}

/// Handler `k` is the first one that takes a lookup of this name.
pub open spec fn claims<N: LookupName>(hs: Seq<N>, k: int, name: Seq<char>) -> bool {
    &&& 0 <= k < hs.len()
    &&& hs[k].spec_check(name)
    &&& forall|i: int| 0 <= i < k ==> !(#[trigger] hs[i]).spec_check(name)
}

/// No handler takes a lookup of this name.
pub open spec fn unclaimed<N: LookupName>(hs: Seq<N>, name: Seq<char>) -> bool {
    forall|i: int| 0 <= i < hs.len() ==> !(#[trigger] hs[i]).spec_check(name)
}

/// The indices `0..n`.
pub open spec fn index_range(n: nat) -> Seq<usize> {
    Seq::new(n, |j: int| j as usize)
}

/// The lookups, by index, that handler `k` takes.
pub open spec fn selected_by<N: LookupName>(hs: Seq<N>, k: int, names: Seq<Seq<char>>) -> Seq<usize> {
    index_range(names.len()).filter(|j: usize| claims(hs, k, names[j as int]))
}

/// The lookups, by index, that no handler takes.
pub open spec fn left_over<N: LookupName>(hs: Seq<N>, names: Seq<Seq<char>>) -> Seq<usize> {
    index_range(names.len()).filter(|j: usize| unclaimed(hs, names[j as int]))
}

impl<N: LookupName> LookupMux<N> {
    pub closed spec fn spec_handlers(&self) -> Seq<N> {
        self.handlers@
    }

    pub closed spec fn spec_has_fallback(&self) -> bool {
        self.fallback
    }

    /// A multiplexer without handlers.
    pub fn new() -> (r: Self)
        ensures
            r.spec_handlers() == Seq::<N>::empty(),
            !r.spec_has_fallback(),
    {
        LookupMux { handlers: Vec::new(), fallback: false }
    }

    /// Registers a handler for the lookups that `name` takes, after the others.
    pub fn with(self, name: N) -> (r: Self)
        ensures
            r.spec_handlers() == self.spec_handlers().push(name),
            r.spec_has_fallback() == self.spec_has_fallback(),
    {
        let mut s = self;
        s.handlers.push(name);
        s
    }

    /// Registers the fallback handler, which takes every lookup that no other takes.
    pub fn fallback(self) -> (r: Self)
        ensures
            r.spec_handlers() == self.spec_handlers(),
            r.spec_has_fallback(),
    {
        let mut s = self;
        s.fallback = true;
        s
    }

    /// A description of the multiplexer: how many handlers, and whether there is a
    /// fallback.
    pub fn describe(&self) -> (r: String)
        ensures
            r@ == "LookupMux handlers: "@ + crate::text::decimal(self.spec_handlers().len()) + " (fallback: "@
                + (if self.spec_has_fallback() {
                "true"@
            } else {
                "false"@
            }) + ")"@,
    {
        let mut out = String::from_str("LookupMux handlers: ");
        crate::text::append_decimal(&mut out, self.handlers.len());
        out.append(" (fallback: ");
        if self.fallback {
            out.append("true");
        } else {
            out.append("false");
        }
        out.append(")");
        out
    }

    /// The handler of a lookup: the first registered handler that takes its name, else
    /// the fallback, else an error that names the lookup.
    pub fn handler_for(&self, name: &str) -> (r: Result<HandlerSlot, LookupError>)
        ensures
            match r {
                Ok(HandlerSlot::Handler(k)) => claims(self.spec_handlers(), k as int, name@),
                Ok(HandlerSlot::Fallback) => unclaimed(self.spec_handlers(), name@)
                    && self.spec_has_fallback(),
                Err(e) => unclaimed(self.spec_handlers(), name@) && !self.spec_has_fallback() && (e matches LookupError::MissingHandler(
                    s,
                ) && s@ == name@),
            },
    {
        let mut k: usize = 0;
        while k < self.handlers.len()
            invariant
                k <= self.handlers.len(),
                forall|i: int| 0 <= i < k ==> !(#[trigger] self.handlers@[i]).spec_check(name@),
            decreases self.handlers.len() - k,
        {
            if self.handlers[k].check(name) {
                return Ok(HandlerSlot::Handler(k));
            }
            k += 1;
        }
        if self.fallback {
            Ok(HandlerSlot::Fallback)
        } else {
            Err(LookupError::MissingHandler(name.to_owned()))
        }
    }

    /// Splits the lookups, given by their names, among the handlers: each registered
    /// handler in order takes the lookups it claims among those that are left, then the
    /// fallback takes the rest. The result lists, per handler (the fallback last), the
    /// indices of its lookups in order; lookups that no handler takes are an error that
    /// lists their names, each preceded by `", "`.
    pub fn partition(&self, names: &Vec<String>) -> (r: Result<Vec<Vec<usize>>, LookupError>)
        ensures
            match r {
                Ok(sel) => {
                    &&& sel.len() == self.spec_handlers().len() + if self.spec_has_fallback() {
                        1nat
                    } else {
                        0nat
                    }
                    &&& forall|k: int|
                        0 <= k < self.spec_handlers().len() ==> (#[trigger] sel@[k])@ == selected_by(
                            self.spec_handlers(),
                            k,
                            string_views(names@),
                        )
                    &&& self.spec_has_fallback() ==> sel@[self.spec_handlers().len() as int]@
                        == left_over(self.spec_handlers(), string_views(names@))
                    &&& !self.spec_has_fallback() ==> left_over(
                        self.spec_handlers(),
                        string_views(names@),
                    ).len() == 0
                },
                Err(e) => {
                    &&& !self.spec_has_fallback()
                    &&& left_over(self.spec_handlers(), string_views(names@)).len() > 0
                    &&& e matches LookupError::NoHandler(s) && s@ == prefixed(
                        left_over(self.spec_handlers(), string_views(names@)).map_values(
                            |j: usize| names@[j as int]@,
                        ),
                        ", "@,
                    )
                },
            },
    {
        let ghost hs = self.handlers@;
        let ghost nv = string_views(names@);
        let n = names.len();
        let mut taken: Vec<bool> = Vec::new();
        let mut j0: usize = 0;
        while j0 < n
            invariant
                j0 <= n,
                n == names.len(),
                taken@.len() == j0,
                forall|j: int| 0 <= j < j0 ==> !(#[trigger] taken@[j]),
            decreases n - j0,
        {
            taken.push(false);
            j0 += 1;
        }
        let mut selections: Vec<Vec<usize>> = Vec::new();
        let mut k: usize = 0;
        while k < self.handlers.len()
            invariant
                k <= self.handlers.len(),
                hs == self.handlers@,
                nv == string_views(names@),
                n == names.len(),
                taken@.len() == n,
                selections@.len() == k,
                forall|j: int|
                    0 <= j < n ==> (#[trigger] taken@[j] <==> exists|i: int|
                        0 <= i < k && (#[trigger] hs[i]).spec_check(nv[j])),
                forall|i: int| 0 <= i < k ==> (#[trigger] selections@[i])@ == selected_by(hs, i, nv),
            decreases self.handlers.len() - k,
        {
            let mut sel: Vec<usize> = Vec::new();
            let mut j: usize = 0;
            while j < n
                invariant
                    k < self.handlers.len(),
                    j <= n,
                    hs == self.handlers@,
                    nv == string_views(names@),
                    n == names.len(),
                    taken@.len() == n,
                    forall|m: int|
                        0 <= m < j ==> (#[trigger] taken@[m] <==> exists|i: int|
                            0 <= i <= k && (#[trigger] hs[i]).spec_check(nv[m])),
                    forall|m: int|
                        j <= m < n ==> (#[trigger] taken@[m] <==> exists|i: int|
                            0 <= i < k && (#[trigger] hs[i]).spec_check(nv[m])),
                    sel@ == index_range(j as nat).filter(|m: usize| claims(hs, k as int, nv[m as int])),
                decreases n - j,
            {
                proof {
                    assert(index_range((j + 1) as nat) =~= index_range(j as nat).push(j));
                    index_range(j as nat).lemma_filter_push(j, |m: usize| claims(hs, k as int, nv[m as int]));
                    assert(nv[j as int] == names@[j as int]@);
                }
                let claimed = !taken[j] && self.handlers[k].check(names[j].as_str());
                proof {
                    if claimed {
                        assert forall|i: int| 0 <= i < k implies !(#[trigger] hs[i]).spec_check(nv[j as int]) by {
                            if hs[i].spec_check(nv[j as int]) {
                                assert(taken@[j as int]);
                            }
                        }
                        assert(claims(hs, k as int, nv[j as int]));
                    } else {
                        if claims(hs, k as int, nv[j as int]) {
                            assert(!taken@[j as int]);
                        }
                    }
                }
                if claimed {
                    taken.set(j, true);
                    sel.push(j);
                }
                proof {
                    if !claimed && !taken@[j as int] {
                        assert forall|i: int| 0 <= i <= k implies !(#[trigger] hs[i]).spec_check(nv[j as int]) by {
                            if i < k && hs[i].spec_check(nv[j as int]) {
                                assert(taken@[j as int]);
                            }
                        }
                    }
                }
                j += 1;
            }
            proof {
                assert(index_range(n as nat) =~= index_range(j as nat));
            }
            selections.push(sel);
            k += 1;
        }
        let mut rest: Vec<usize> = Vec::new();
        let mut rest_names: Vec<String> = Vec::new();
        let mut j: usize = 0;
        while j < n
            invariant
                j <= n,
                hs == self.handlers@,
                nv == string_views(names@),
                n == names.len(),
                taken@.len() == n,
                forall|m: int|
                    0 <= m < n ==> (#[trigger] taken@[m] <==> exists|i: int|
                        0 <= i < hs.len() && (#[trigger] hs[i]).spec_check(nv[m])),
                rest@ == index_range(j as nat).filter(|m: usize| unclaimed(hs, nv[m as int])),
                string_views(rest_names@) == rest@.map_values(|m: usize| names@[m as int]@),
            decreases n - j,
        {
            proof {
                assert(index_range((j + 1) as nat) =~= index_range(j as nat).push(j));
                index_range(j as nat).lemma_filter_push(j, |m: usize| unclaimed(hs, nv[m as int]));
                assert(nv[j as int] == names@[j as int]@);
                if taken@[j as int] {
                    let i = choose|i: int| 0 <= i < hs.len() && (#[trigger] hs[i]).spec_check(nv[j as int]);
                    assert(!unclaimed(hs, nv[j as int]));
                }
            }
            if !taken[j] {
                let ghost before = rest_names@;
                let ghost rest_before = rest@;
                rest.push(j);
                rest_names.push(names[j].clone());
                proof {
                    assert(string_views(rest_names@) =~= string_views(before).push(names@[j as int]@));
                    assert(rest@.map_values(|m: usize| names@[m as int]@) =~= rest_before.map_values(
                        |m: usize| names@[m as int]@,
                    ).push(names@[j as int]@));
                }
            }
            j += 1;
        }
        proof {
            assert(index_range(n as nat) =~= index_range(j as nat));
            assert(nv.len() == n);
        }
        if self.fallback {
            selections.push(rest);
            Ok(selections)
        } else if rest.len() > 0 {
            Err(LookupError::NoHandler(prefix_each(&rest_names, ", ")))
        } else {
            Ok(selections)
        }
    }
}

} // verus!
