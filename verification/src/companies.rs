//! The company index: ticker symbols and their dense identifiers.

use crate::util::CompanyId;
use vstd::prelude::*;
use vstd::string::StringExecFns;

verus! {

/// Ticker symbols, each with the identifier that it was given when it was
/// added: the first symbol has 0, the next 1, and so on. No symbol occurs
/// twice.
#[derive(Debug)]
pub struct Companies {
    symbols: Vec<String>,
}

/// Whether all members of `s` differ from each other.
pub open spec fn distinct(s: Seq<Seq<char>>) -> bool {
    forall|i: int, j: int| 0 <= i < j < s.len() ==> s[i] != s[j]
}

impl View for Companies {
    type V = Seq<Seq<char>>;

    /// The symbols in the order of their identifiers.
    closed spec fn view(&self) -> Seq<Seq<char>> {
        Seq::new(self.symbols@.len(), |i: int| self.symbols@[i]@)
    }
}

impl Companies {
    /// No symbol occurs twice.
    #[verifier::type_invariant]
    pub open spec fn wf(&self) -> bool {
        distinct(self@)
    }

    /// The identifier of `symbol`, if it is one of the symbols.
    pub open spec fn id_of(&self, symbol: Seq<char>) -> Option<int> {
        if self@.contains(symbol) {
            Some(self@.index_of(symbol))
        } else {
            None
        }
    }

    /// An index without companies.
    pub fn new() -> (r: Companies)
        ensures
            r@.len() == 0,
            r.wf(),
    {
        Companies { symbols: Vec::new() }
    }

    /// The number of companies.
    pub fn len(&self) -> (n: usize)
        ensures
            n == self@.len(),
    {
        self.symbols.len()
    }

    /// The identifier of `symbol`; none if the index does not hold it.
    pub fn get(&self, symbol: &str) -> (r: Option<CompanyId>)
        ensures
            self.wf(),
            match r {
                Some(id) => id < self@.len() && self@[id as int] == symbol@,
                None => !self@.contains(symbol@),
            },
            r == match self.id_of(symbol@) {
                Some(id) => Some(id as usize),
                None => None,
            },
    {
        proof {
            use_type_invariant(self);
        }
        let wanted = String::from_str(symbol);
        let mut i: usize = 0;
        while i < self.symbols.len()
            invariant
                i <= self.symbols.len(),
                self.wf(),
                wanted@ == symbol@,
                forall|k: int| 0 <= k < i ==> self@[k] != symbol@,
            decreases self.symbols.len() - i,
        {
            if self.symbols[i] == wanted {
                proof {
                    assert(self@[i as int] == symbol@);
                    assert(self@.contains(symbol@));
                    let k = self@.index_of(symbol@);
                    assert(0 <= k < self@.len() && self@[k] == symbol@);
                    if k < i {
                        assert(self@[k] != self@[i as int]);
                    } else if i < k {
                        assert(self@[i as int] != self@[k]);
                    }
                }
                return Some(i);
            }
            i += 1;
        }
        None
    }

    /// The symbol of the company `id`; none if there is no such company.
    pub fn symbol(&self, id: CompanyId) -> (r: Option<&String>)
        ensures
            match r {
                Some(s) => id < self@.len() && s@ == self@[id as int],
                None => id >= self@.len(),
            },
    {
        if id < self.symbols.len() {
            Some(&self.symbols[id])
        } else {
            None
        }
    }

    /// Adds `symbol` and returns its identifier, the number of companies
    /// before the call. A symbol that the index holds is not added again:
    /// the result is none and the index stays as it is.
    pub fn insert(&mut self, symbol: &str) -> (r: Option<CompanyId>)
        ensures
            old(self).wf(),
            final(self).wf(),
            match r {
                Some(id) => !old(self)@.contains(symbol@) && id == old(self)@.len() && final(self)@
                    == old(self)@.push(symbol@),
                None => old(self)@.contains(symbol@) && final(self)@ == old(self)@,
            },
    {
        match self.get(symbol) {
            Some(_) => None,
            None => {
                let mut taken = Companies { symbols: Vec::new() };
                core::mem::swap(self, &mut taken);
                let Companies { symbols } = taken;
                let mut symbols = symbols;
                let id = symbols.len();
                symbols.push(String::from_str(symbol));
                proof {
                    let before = old(self)@;
                    let after = Seq::new(symbols@.len(), |i: int| symbols@[i]@);
                    assert(after =~= before.push(symbol@));
                    assert forall|i: int, j: int| 0 <= i < j < after.len() implies after[i]
                        != after[j] by {
                        if j == before.len() {
                            assert(before.contains(before[i]));
                        } else {
                            assert(before[i] != before[j]);
                        }
                    }
                }
                let grown = Companies { symbols };
                assert(grown@ =~= old(self)@.push(symbol@));
                *self = grown;
                Some(id)
            },
        }
    }
}

} // verus!
