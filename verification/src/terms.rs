//! A small algebra of cellular-automaton predecessor expressions: a term
//! constrains one tape cell, a product is a conjunction of terms, and an
//! expression is a disjunction of products. Expressions multiply out like
//! polynomials and expand backwards through a state-to-expression mapping.
use vstd::prelude::*;
use std::collections::HashMap;
use crate::emit::u64_to_string;

verus! {

broadcast use vstd::std_specs::hash::group_hash_axioms;

/// The text before the first ASCII whitespace character; the whole text when
/// it holds no other character.
pub open spec fn is_space(c: char) -> bool {
    c == ' ' || c == '\t' || c == '\n' || c == '\r'
}

/// The length of the leading run of non-whitespace characters.
pub open spec fn clip_len(s: Seq<char>) -> int
    decreases s.len(),
{
    if s.len() == 0 {
        0
    } else if is_space(s[0]) {
        0
    } else {
        1 + clip_len(s.drop_first())
    }
}

/// Keeps the text up to the first ASCII whitespace character; text that
/// starts with whitespace or holds none at all comes back unchanged.
pub fn clip_after_space(s: String) -> (r: String)
    ensures
        (0 < clip_len(s@) < s@.len()) ==> r@ == s@.take(clip_len(s@)),
        !(0 < clip_len(s@) < s@.len()) ==> r@ == s@,
{
    let st: &str = s.as_str();
    let n = st.unicode_len();
    let mut i: usize = 0;
    while i < n
        invariant
            st@ == s@,
            n == st@.len(),
            0 <= i <= n,
            forall|j: int| 0 <= j < i ==> !is_space(#[trigger] st@[j]),
        decreases n - i,
    {
        let c = st.get_char(i);
        if c == ' ' || c == '\t' || c == '\n' || c == '\r' {
            proof {
                lemma_clip_len_at(st@, i as int);
            }
            if i == 0 {
                return s;
            }
            let r = st.substring_char(0, i);
            proof {
                assert(r@ =~= s@.take(i as int));
            }
            return r.to_owned();
        }
        i = i + 1;
    }
    proof {
        lemma_clip_len_all(st@);
    }
    s
}

/// A sequence whose first whitespace sits at `i` clips there.
proof fn lemma_clip_len_at(s: Seq<char>, i: int)
    requires
        0 <= i < s.len(),
        is_space(s[i]),
        forall|j: int| 0 <= j < i ==> !is_space(#[trigger] s[j]),
    ensures
        clip_len(s) == i,
    decreases i,
{
    if i > 0 {
        assert(forall|j: int|
            0 <= j < i - 1 ==> s.drop_first()[j] == (#[trigger] s[j + 1]));
        lemma_clip_len_at(s.drop_first(), i - 1);
    }
}

/// A sequence with no whitespace clips at its end.
proof fn lemma_clip_len_all(s: Seq<char>)
    requires
        forall|j: int| 0 <= j < s.len() ==> !is_space(#[trigger] s[j]),
    ensures
        clip_len(s) == s.len(),
    decreases s.len(),
{
    if s.len() > 0 {
        assert(forall|j: int|
            0 <= j < s.len() - 1 ==> s.drop_first()[j] == (#[trigger] s[j + 1]));
        lemma_clip_len_all(s.drop_first());
    }
}

/// Where a term sits inside an expression: which product, which term.
#[derive(Clone, Copy, Debug, PartialEq, Eq, Structural)]
pub struct ExprPosition {
    pub product_idx: u64,
    pub term_idx: u64,
}

/// The diagnostic trail of a term: its index within one expansion round and
/// its own and its parent's position.
#[derive(Clone, Copy, Debug, PartialEq, Eq, Structural)]
pub struct ExprDebugInfo {
    pub expansion_index: u16,
    pub position_info: Option<ExprPosition>,
    pub parent_position_info: Option<ExprPosition>,
}

impl ExprDebugInfo {
    pub fn spawn_empty() -> (r: ExprDebugInfo)
        ensures
            r == (ExprDebugInfo { expansion_index: 0, position_info: None, parent_position_info: None }),
    {
        ExprDebugInfo { expansion_index: 0, position_info: None, parent_position_info: None }
    }
}

/// One constraint: the tape cell at `position` holds `state`.
#[derive(Clone, Copy, Debug)]
pub struct Term {
    pub position: i64,
    pub state: u8,
    pub _optimized: bool,
    pub _debug_info: ExprDebugInfo,
}

impl PartialEq for Term {
    fn eq(&self, other: &Self) -> (r: bool) {
        self.position == other.position && self.state == other.state
    }
}

impl vstd::std_specs::cmp::PartialEqSpecImpl for Term {
    open spec fn obeys_eq_spec() -> bool {
        true
    }

    open spec fn eq_spec(&self, other: &Self) -> bool {
        self.position == other.position && self.state == other.state
    }
}

impl Eq for Term {

}

impl Term {
    pub fn new(position: i64, state: u8, optimized: bool) -> (r: Term)
        ensures
            r.position == position,
            r.state == state,
            r._optimized == optimized,
            r._debug_info == (ExprDebugInfo {
                expansion_index: 0,
                position_info: None,
                parent_position_info: None,
            }),
    {
        Term { position, state, _optimized: optimized, _debug_info: ExprDebugInfo::spawn_empty() }
    }

    pub fn has_debug_position_info(&self) -> (r: bool)
        ensures
            r == (self._debug_info.position_info is Some),
    {
        self._debug_info.position_info.is_some()
    }

    pub fn _assign_expr_position(&mut self, product_idx: u64, term_idx: u64)
        ensures
            *final(self) == (Term {
                _debug_info: ExprDebugInfo {
                    position_info: Some(ExprPosition { product_idx, term_idx }),
                    ..old(self)._debug_info
                },
                ..*old(self)
            }),
    {
        self._debug_info.position_info = Some(ExprPosition { product_idx, term_idx });
    }

    pub fn _assign_expr_position_if_empty(&mut self, product_idx: u64, term_idx: u64)
        ensures
            *final(self) == (Term {
                _debug_info: ExprDebugInfo {
                    position_info: if old(self)._debug_info.position_info is None {
                        Some(ExprPosition { product_idx, term_idx })
                    } else {
                        old(self)._debug_info.position_info
                    },
                    ..old(self)._debug_info
                },
                ..*old(self)
            }),
    {
        if self._debug_info.position_info.is_none() {
            self._assign_expr_position(product_idx, term_idx);
        }
    }

    /// Overwrites the term's position; a caller that asks for an empty slot
    /// must hand in a term that has none.
    pub fn insert_expr_position(&mut self, position: ExprPosition, require_empty: bool)
        requires
            require_empty ==> old(self)._debug_info.position_info is None,
        ensures
            *final(self) == (Term {
                _debug_info: ExprDebugInfo { position_info: Some(position), ..old(self)._debug_info },
                ..*old(self)
            }),
    {
        self._debug_info.position_info = Some(position);
    }

    pub fn _to_product(&self) -> (r: Product)
        ensures
            r._terms@ == seq![*self],
            r._optimized == false,
    {
        let mut terms: Vec<Term> = Vec::new();
        terms.push(*self);
        proof {
            assert(terms@ =~= seq![*self]);
        }
        Product::new(terms)
    }
}

/// A conjunction of terms.
#[derive(Debug)]
pub struct Product {
    pub _terms: Vec<Term>,
    pub _optimized: bool,
}

impl Clone for Product {
    fn clone(&self) -> (r: Self)
        ensures
            r._terms@ == self._terms@,
            r._optimized == self._optimized,
    {
        let n = self._terms.len();
        let mut terms: Vec<Term> = Vec::new();
        let mut i: usize = 0;
        while i < n
            invariant
                n == self._terms@.len(),
                0 <= i <= n,
                terms@ == self._terms@.take(i as int),
            decreases n - i,
        {
            terms.push(self._terms[i]);
            i = i + 1;
        }
        proof {
            assert(terms@ =~= self._terms@);
        }
        Product { _terms: terms, _optimized: self._optimized }
    }
}

/// Whether two term lists constrain the same cells to the same states.
pub open spec fn terms_match(a: Seq<Term>, b: Seq<Term>) -> bool {
    a.len() == b.len() && forall|i: int|
        0 <= i < a.len() ==> (#[trigger] a[i]).position == b[i].position && a[i].state == b[i].state
}

impl PartialEq for Product {
    fn eq(&self, other: &Self) -> (r: bool) {
        let n = self._terms.len();
        if n != other._terms.len() {
            return false;
        }
        let mut i: usize = 0;
        while i < n
            invariant
                n == self._terms@.len(),
                n == other._terms@.len(),
                0 <= i <= n,
                forall|j: int|
                    0 <= j < i ==> (#[trigger] self._terms@[j]).position == other._terms@[j].position
                        && self._terms@[j].state == other._terms@[j].state,
            decreases n - i,
        {
            if self._terms[i].position != other._terms[i].position || self._terms[i].state
                != other._terms[i].state {
                return false;
            }
            i = i + 1;
        }
        true
    }
}

impl vstd::std_specs::cmp::PartialEqSpecImpl for Product {
    open spec fn obeys_eq_spec() -> bool {
        true
    }

    open spec fn eq_spec(&self, other: &Self) -> bool {
        terms_match(self._terms@, other._terms@)
    }
}

impl Eq for Product {

}

impl Product {
    pub fn new(terms: Vec<Term>) -> (r: Product)
        ensures
            r._terms == terms,
            r._optimized == false,
    {
        Product { _terms: terms, _optimized: false }
    }

    /// The term at an index, if it is in range.
    pub fn _get_term(&self, index: usize) -> (r: Option<&Term>)
        ensures
            match r {
                Some(t) => index < self._terms@.len() && *t == self._terms@[index as int],
                None => index >= self._terms@.len(),
            },
    {
        if index < self._terms.len() {
            Some(&self._terms[index])
        } else {
            None
        }
    }

    /// Pads the product to a length by repeating its last term; refuses a
    /// length shorter than the product.
    pub fn pad_terms(&self, length: usize) -> (r: Option<Product>)
        requires
            self._terms@.len() > 0,
        ensures
            match r {
                Some(p) => length >= self._terms@.len() && p._terms@.len() == length
                    && p._terms@.take(self._terms@.len() as int) == self._terms@ && forall|j: int|
                    self._terms@.len() <= j < length ==> p._terms@[j] == self._terms@.last(),
                None => length < self._terms@.len(),
            },
    {
        let current_length = self._terms.len();
        if length >= current_length {
            let mut new_terms = self._terms.clone();
            proof {
                assert(new_terms@ == self._terms@);
            }
            let last_term = self._terms[current_length - 1];
            while new_terms.len() < length
                invariant
                    current_length == self._terms@.len(),
                    current_length <= new_terms@.len() <= length,
                    last_term == self._terms@.last(),
                    new_terms@.take(current_length as int) == self._terms@,
                    forall|j: int|
                        current_length <= j < new_terms@.len() ==> new_terms@[j] == self
                            ._terms@.last(),
                decreases length - new_terms@.len(),
            {
                new_terms.push(last_term);
                proof {
                    assert(new_terms@.take(current_length as int) =~= self._terms@);
                }
            }
            Some(Product::new(new_terms))
        } else {
            None
        }
    }

    /// Stamps every term with its place under the given product index.
    pub fn _assign_base_indexes(&mut self, product_idx: u64)
        ensures
            final(self)._terms@.len() == old(self)._terms@.len(),
            final(self)._optimized == old(self)._optimized,
            forall|j: int|
                0 <= j < final(self)._terms@.len() ==> (#[trigger] final(self)._terms@[j]) == (Term {
                    _debug_info: ExprDebugInfo {
                        position_info: Some(
                            ExprPosition { product_idx, term_idx: j as u64 },
                        ),
                        ..old(self)._terms@[j]._debug_info
                    },
                    ..old(self)._terms@[j]
                }),
    {
        let n = self._terms.len();
        let mut i: usize = 0;
        while i < n
            invariant
                n == self._terms@.len(),
                0 <= i <= n,
                self._optimized == old(self)._optimized,
                forall|j: int| i <= j < n ==> self._terms@[j] == (#[trigger] old(self)._terms@[j]),
                forall|j: int|
                    0 <= j < i ==> (#[trigger] self._terms@[j]) == (Term {
                        _debug_info: ExprDebugInfo {
                            position_info: Some(
                                ExprPosition { product_idx, term_idx: j as u64 },
                            ),
                            ..old(self)._terms@[j]._debug_info
                        },
                        ..old(self)._terms@[j]
                    }),
            decreases n - i,
        {
            let expr_position = ExprPosition { product_idx, term_idx: i as u64 };
            let mut t = self._terms[i];
            t.insert_expr_position(expr_position, false);
            self._terms.set(i, t);
            i = i + 1;
        }
    }
}

/// A disjunction of products.
#[derive(Debug)]
pub struct Expression {
    pub products: Vec<Product>,
    pub _optimized: bool,
}

impl Clone for Expression {
    fn clone(&self) -> (r: Self)
        ensures
            r.products@.len() == self.products@.len(),
            forall|i: int|
                0 <= i < self.products@.len() ==> (#[trigger] r.products@[i])._terms@ == self
                    .products@[i]._terms@ && r.products@[i]._optimized == self
                    .products@[i]._optimized,
            r._optimized == self._optimized,
    {
        let n = self.products.len();
        let mut products: Vec<Product> = Vec::new();
        let mut i: usize = 0;
        while i < n
            invariant
                n == self.products@.len(),
                0 <= i <= n,
                products@.len() == i,
                forall|j: int|
                    0 <= j < i ==> (#[trigger] products@[j])._terms@ == self.products@[j]._terms@
                        && products@[j]._optimized == self.products@[j]._optimized,
            decreases n - i,
        {
            products.push(self.products[i].clone());
            i = i + 1;
        }
        Expression { products, _optimized: self._optimized }
    }
}

/// Whether two product lists mean the same disjunction, product by product.
pub open spec fn products_match(a: Seq<Product>, b: Seq<Product>) -> bool {
    a.len() == b.len() && forall|i: int|
        0 <= i < a.len() ==> terms_match((#[trigger] a[i])._terms@, b[i]._terms@)
}

impl PartialEq for Expression {
    fn eq(&self, other: &Self) -> (r: bool) {
        let n = self.products.len();
        if n != other.products.len() {
            return false;
        }
        let mut i: usize = 0;
        while i < n
            invariant
                n == self.products@.len(),
                n == other.products@.len(),
                0 <= i <= n,
                forall|j: int|
                    0 <= j < i ==> terms_match(
                        (#[trigger] self.products@[j])._terms@,
                        other.products@[j]._terms@,
                    ),
            decreases n - i,
        {
            if !(self.products[i] == other.products[i]) {
                return false;
            }
            i = i + 1;
        }
        true
    }
}

impl vstd::std_specs::cmp::PartialEqSpecImpl for Expression {
    open spec fn obeys_eq_spec() -> bool {
        true
    }

    open spec fn eq_spec(&self, other: &Self) -> bool {
        products_match(self.products@, other.products@)
    }
}

impl Eq for Expression {

}

impl Expression {
    pub fn new(products: Vec<Product>) -> (r: Expression)
        ensures
            r.products == products,
            r._optimized == false,
    {
        Expression { products, _optimized: false }
    }

    pub fn _get_num_products(&self) -> (r: usize)
        ensures
            r == self.products@.len(),
    {
        self.products.len()
    }

    pub fn _get_products(&self) -> (r: &Vec<Product>)
        ensures
            r == &self.products,
    {
        &self.products
    }

    /// The product at an index, if it is in range.
    pub fn _get_product(&self, index: usize) -> (r: Option<&Product>)
        ensures
            match r {
                Some(p) => index < self.products@.len() && *p == self.products@[index as int],
                None => index >= self.products@.len(),
            },
    {
        if index < self.products.len() {
            Some(&self.products[index])
        } else {
            None
        }
    }

    /// Every term of every product, in reading order.
    pub fn _to_flat_terms(&self) -> (r: Vec<Term>)
    {
        let mut flat_terms: Vec<Term> = Vec::new();
        let n = self.products.len();
        let mut i: usize = 0;
        while i < n
            invariant
                n == self.products@.len(),
                0 <= i <= n,
            decreases n - i,
        {
            let m = self.products[i]._terms.len();
            let mut k: usize = 0;
            while k < m
                invariant
                    n == self.products@.len(),
                    i < n,
                    m == self.products@[i as int]._terms@.len(),
                    0 <= k <= m,
                decreases m - k,
            {
                flat_terms.push(self.products[i]._terms[k]);
                k = k + 1;
            }
            i = i + 1;
        }
        flat_terms
    }

    /// Whether every term of the expression has its position stamped.
    pub open spec fn all_positions_assigned(&self) -> bool {
        forall|i: int, j: int|
            0 <= i < self.products@.len() && 0 <= j < (#[trigger] self.products@[i])._terms@.len()
                ==> ((#[trigger] self.products@[i]._terms@[j])._debug_info.position_info
                == Some(ExprPosition { product_idx: i as u64, term_idx: j as u64 }))
    }

    /// Stamps every term of every product with its place.
    pub fn _assign_expr_positions(&mut self)
        ensures
            final(self).all_positions_assigned(),
            final(self).products@.len() == old(self).products@.len(),
            final(self)._optimized == old(self)._optimized,
            forall|i: int|
                0 <= i < final(self).products@.len() ==> (#[trigger] final(self).products@[i])
                    ._terms@.len() == old(self).products@[i]._terms@.len(),
            forall|i: int, j: int|
                0 <= i < final(self).products@.len() && 0 <= j
                    < final(self).products@[i]._terms@.len()
                    ==> (#[trigger] final(self).products@[i]._terms@[j]) == stamp_term(
                    old(self).products@[i]._terms@[j],
                    i,
                    j,
                ),
    {
        let n = self.products.len();
        let mut i: usize = 0;
        while i < n
            invariant
                n == self.products@.len(),
                0 <= i <= n,
                self._optimized == old(self)._optimized,
                forall|j: int|
                    i <= j < n ==> self.products@[j] == (#[trigger] old(self).products@[j]),
                forall|j: int|
                    0 <= j < i ==> (#[trigger] self.products@[j])._terms@.len() == old(
                        self,
                    ).products@[j]._terms@.len(),
                forall|j: int, k: int|
                    0 <= j < i && 0 <= k < self.products@[j]._terms@.len() ==> (
                    #[trigger] self.products@[j]._terms@[k]) == stamp_term(
                        old(self).products@[j]._terms@[k],
                        j,
                        k,
                    ),
            decreases n - i,
        {
            let mut p = self.products[i].clone();
            proof {
                assert(p._terms@ == self.products@[i as int]._terms@);
            }
            p._assign_base_indexes(i as u64);
            self.products.set(i, p);
            i = i + 1;
        }
        proof {
            assert(self.all_positions_assigned());
        }
    }

    /// Stamps every term of every product with its place.
    pub fn _assign_base_indexes(&mut self)
        ensures
            final(self).all_positions_assigned(),
            final(self).products@.len() == old(self).products@.len(),
            final(self)._optimized == old(self)._optimized,
            forall|i: int|
                0 <= i < final(self).products@.len() ==> terms_match(
                    (#[trigger] final(self).products@[i])._terms@,
                    old(self).products@[i]._terms@,
                ),
    {
        self._assign_expr_positions();
    }

    /// Copies the parent-position trail onto every term.
    pub fn _assign_parent_debug_info(&mut self, parent_debug_info: &ExprDebugInfo)
        ensures
            final(self).products@.len() == old(self).products@.len(),
            forall|i: int|
                0 <= i < final(self).products@.len() ==> terms_match(
                    (#[trigger] final(self).products@[i])._terms@,
                    old(self).products@[i]._terms@,
                ),
    {
        let n = self.products.len();
        let mut i: usize = 0;
        while i < n
            invariant
                n == self.products@.len(),
                0 <= i <= n,
                forall|j: int|
                    i <= j < n ==> self.products@[j] == (#[trigger] old(self).products@[j]),
                forall|j: int|
                    0 <= j < i ==> terms_match(
                        (#[trigger] self.products@[j])._terms@,
                        old(self).products@[j]._terms@,
                    ),
            decreases n - i,
        {
            let mut p = self.products[i].clone();
            proof {
                assert(p._terms@ == self.products@[i as int]._terms@);
            }
            let m = p._terms.len();
            let mut k: usize = 0;
            while k < m
                invariant
                    m == p._terms@.len(),
                    0 <= k <= m,
                    terms_match(p._terms@, old(self).products@[i as int]._terms@),
                decreases m - k,
            {
                let mut t = p._terms[k];
                t._debug_info.parent_position_info = parent_debug_info.position_info;
                p._terms.set(k, t);
                k = k + 1;
            }
            self.products.set(i, p);
            i = i + 1;
        }
    }

    /// Pads the expression to a number of products by repeating its last one.
    pub fn pad_products(&self, new_num_products: usize) -> (r: Option<Expression>)
        requires
            self.products@.len() > 0,
        ensures
            match r {
                Some(e) => {
                    let n = self.products@.len() as int;
                    &&& e.products@.len() >= n
                    &&& (new_num_products <= n ==> e.products@.len() == n)
                    &&& (new_num_products > n ==> e.products@.len() == new_num_products)
                    &&& forall|j: int|
                        0 <= j < n ==> terms_match(
                            (#[trigger] e.products@[j])._terms@,
                            self.products@[j]._terms@,
                        )
                    &&& forall|j: int|
                        n <= j < e.products@.len() ==> terms_match(
                            (#[trigger] e.products@[j])._terms@,
                            self.products@.last()._terms@,
                        )
                },
                None => false,
            },
    {
        let ghost n0 = self.products@.len() as int;
        let n = self.products.len();
        let mut new_products: Vec<Product> = Vec::new();
        let mut i: usize = 0;
        while i < n
            invariant
                n == self.products@.len(),
                0 <= i <= n,
                new_products@.len() == i,
                forall|j: int|
                    0 <= j < i ==> terms_match(
                        (#[trigger] new_products@[j])._terms@,
                        self.products@[j]._terms@,
                    ),
            decreases n - i,
        {
            new_products.push(self.products[i].clone());
            i = i + 1;
        }
        let last_product = self.products[n - 1].clone();
        while new_products.len() < new_num_products
            invariant
                n == self.products@.len(),
                n > 0,
                terms_match(last_product._terms@, self.products@.last()._terms@),
                n <= new_products@.len(),
                new_products@.len() <= vstd::math::max(new_num_products as int, n as int),
                forall|j: int|
                    0 <= j < n ==> terms_match(
                        (#[trigger] new_products@[j])._terms@,
                        self.products@[j]._terms@,
                    ),
                forall|j: int|
                    n <= j < new_products@.len() ==> terms_match(
                        (#[trigger] new_products@[j])._terms@,
                        self.products@.last()._terms@,
                    ),
            decreases new_num_products - new_products@.len(),
        {
            new_products.push(last_product.clone());
        }
        Some(Expression::new(new_products))
    }
}

/// The terms of an expression, product by product.
pub open spec fn products_of_expr(e: &Expression) -> Seq<Seq<Term>> {
    Seq::new(e.products@.len(), |i: int| e.products@[i]._terms@)
}

/// Whether one term is satisfied under a cell assignment.
pub open spec fn term_sub_spec(t: Term, subs: Map<i64, u8>, default: u8) -> bool {
    (if subs.contains_key(t.position) {
        subs[t.position]
    } else {
        default
    }) == t.state
}

/// Whether every term of one product is satisfied.
pub open spec fn product_sub_spec(ts: Seq<Term>, subs: Map<i64, u8>, default: u8) -> bool {
    forall|j: int| 0 <= j < ts.len() ==> term_sub_spec(#[trigger] ts[j], subs, default)
}

/// Whether some product is satisfied.
pub open spec fn sub_spec(ps: Seq<Seq<Term>>, subs: Map<i64, u8>, default: u8) -> bool {
    exists|i: int| 0 <= i < ps.len() && product_sub_spec(#[trigger] ps[i], subs, default)
}

/// A term moved along the tape; the move builds a fresh term, so the
/// diagnostic trail starts over.
pub open spec fn offset_term(t: Term, off: i64) -> Term {
    Term {
        position: (t.position + off) as i64,
        state: t.state,
        _optimized: t._optimized,
        _debug_info: ExprDebugInfo {
            expansion_index: 0,
            position_info: None,
            parent_position_info: None,
        },
    }
}

/// All terms moved along the tape.
pub open spec fn offset_products(ps: Seq<Seq<Term>>, off: i64) -> Seq<Seq<Term>> {
    Seq::new(ps.len(), |i: int| Seq::new(ps[i].len(), |j: int| offset_term(ps[i][j], off)))
}

/// Whether every moved position stays in the machine's range.
pub open spec fn offset_in_range(ps: Seq<Seq<Term>>, off: i64) -> bool {
    forall|i: int, j: int|
        0 <= i < ps.len() && 0 <= j < ps[i].len() ==> i64::MIN <= (#[trigger] ps[i][j]).position
            + off <= i64::MAX
}

/// Whether every position is bounded in magnitude.
pub open spec fn ps_bounded(ps: Seq<Seq<Term>>, b: int) -> bool {
    forall|i: int, j: int|
        0 <= i < ps.len() && 0 <= j < ps[i].len() ==> -b <= (#[trigger] ps[i][j]).position <= b
}

/// Whether every mentioned state has an expansion.
pub open spec fn states_in_ps(ps: Seq<Seq<Term>>, m: Map<u8, Expression>) -> bool {
    forall|i: int, j: int|
        0 <= i < ps.len() && 0 <= j < ps[i].len() ==> m.contains_key(
            (#[trigger] ps[i][j]).state,
        )
}

/// Whether every expansion's own states stay inside the mapping, so that
/// expansion can run again on its own output.
pub open spec fn mapping_closed(m: Map<u8, Expression>) -> bool {
    forall|k: u8|
        #[trigger] m.contains_key(k) ==> states_in_ps(products_of_expr(&m[k]), m)
}

/// Whether every expansion's positions are bounded in magnitude.
pub open spec fn mapping_bounded(m: Map<u8, Expression>, b: int) -> bool {
    forall|k: u8| #[trigger] m.contains_key(k) ==> ps_bounded(products_of_expr(&m[k]), b)
}

/// A term stamped with its place.
pub open spec fn stamp_term(t: Term, i: int, j: int) -> Term {
    Term {
        _debug_info: ExprDebugInfo {
            position_info: Some(ExprPosition { product_idx: i as u64, term_idx: j as u64 }),
            ..t._debug_info
        },
        ..t
    }
}

/// The product lists of two expressions multiplied out: every product of the
/// left concatenated with every product of the right, right varying fastest.
pub open spec fn cross_products(a: Seq<Seq<Term>>, b: Seq<Seq<Term>>) -> Seq<Seq<Term>> {
    Seq::new(a.len() * b.len(), |k: int| a[k / b.len() as int] + b[k % b.len() as int])
}

/// The total number of terms.
pub open spec fn terms_total(ps: Seq<Seq<Term>>) -> int
    decreases ps.len(),
{
    if ps.len() == 0 {
        0
    } else {
        terms_total(ps.drop_last()) + ps.last().len()
    }
}

impl Expression {
    /// Multiplies two disjunctions out, like polynomials.
    pub fn multiply_expression(&self, rhs: &Expression) -> (r: Expression)
        ensures
            products_of_expr(&r) == cross_products(products_of_expr(self), products_of_expr(rhs)),
    {
        let ghost av = products_of_expr(self);
        let ghost bv = products_of_expr(rhs);
        let na = self.products.len();
        let nb = rhs.products.len();
        let mut multiplied_products: Vec<Product> = Vec::new();
        let mut i: usize = 0;
        while i < na
            invariant
                na == self.products@.len(),
                nb == rhs.products@.len(),
                av == products_of_expr(self),
                bv == products_of_expr(rhs),
                0 <= i <= na,
                multiplied_products@.len() == i * nb,
                forall|k: int|
                    0 <= k < i * nb ==> (#[trigger] multiplied_products@[k])._terms@ == av[k
                        / nb as int] + bv[k % nb as int],
            decreases na - i,
        {
            let mut j: usize = 0;
            while j < nb
                invariant
                    na == self.products@.len(),
                    nb == rhs.products@.len(),
                    av == products_of_expr(self),
                    bv == products_of_expr(rhs),
                    0 <= i < na,
                    0 <= j <= nb,
                    multiplied_products@.len() == i * nb + j,
                    forall|k: int|
                        0 <= k < i * nb + j ==> (#[trigger] multiplied_products@[k])._terms@ == av[k
                            / nb as int] + bv[k % nb as int],
                decreases nb - j,
            {
                let mut new_terms: Vec<Term> = Vec::new();
                let ghost gi = i as int;
                let ghost gj = j as int;
                let ma = self.products[i]._terms.len();
                let mut t: usize = 0;
                while t < ma
                    invariant
                        na == self.products@.len(),
                        0 <= i < na,
                        ma == self.products@[i as int]._terms@.len(),
                        0 <= t <= ma,
                        new_terms@ == self.products@[i as int]._terms@.take(t as int),
                    decreases ma - t,
                {
                    new_terms.push(self.products[i]._terms[t]);
                    t = t + 1;
                }
                proof {
                    assert(new_terms@ =~= self.products@[gi]._terms@);
                }
                let mb = rhs.products[j]._terms.len();
                let mut t2: usize = 0;
                while t2 < mb
                    invariant
                        na == self.products@.len(),
                        nb == rhs.products@.len(),
                        0 <= i < na,
                        0 <= j < nb,
                        mb == rhs.products@[j as int]._terms@.len(),
                        0 <= t2 <= mb,
                        new_terms@ == self.products@[i as int]._terms@ + rhs.products@[j as int]
                            ._terms@.take(t2 as int),
                    decreases mb - t2,
                {
                    new_terms.push(rhs.products[j]._terms[t2]);
                    proof {
                        assert(new_terms@ =~= self.products@[i as int]._terms@ + rhs
                            .products@[j as int]._terms@.take(t2 as int + 1));
                    }
                    t2 = t2 + 1;
                }
                proof {
                    assert(new_terms@ =~= av[gi] + bv[gj]);
                }
                multiplied_products.push(Product::new(new_terms));
                proof {
                    let k = gi * nb + gj;
                    assert(k / nb as int == gi && k % nb as int == gj) by (nonlinear_arith)
                        requires
                            nb > 0,
                            0 <= gi,
                            0 <= gj < nb,
                            k == gi * nb + gj,
                    ;
                    assert(multiplied_products@[k]._terms@ == av[k / nb as int] + bv[k
                        % nb as int]);
                }
                j = j + 1;
            }
            proof {
                assert((i + 1) * nb == i * nb + nb) by (nonlinear_arith);
            }
            i = i + 1;
        }
        let r = Expression::new(multiplied_products);
        proof {
            assert(na as int * nb as int >= 0) by (nonlinear_arith)
                requires
                    na >= 0,
                    nb >= 0,
            ;
            assert(products_of_expr(&r) =~= cross_products(av, bv));
        }
        r
    }

    /// Joins another disjunction onto this one in place.
    pub fn append_products(&mut self, rhs: &Expression)
        ensures
            products_of_expr(final(self)) == products_of_expr(old(self)) + products_of_expr(rhs),
            final(self)._optimized == old(self)._optimized,
    {
        let na = self.products.len();
        let nb = rhs.products.len();
        let mut j: usize = 0;
        while j < nb
            invariant
                na == old(self).products@.len(),
                nb == rhs.products@.len(),
                0 <= j <= nb,
                self._optimized == old(self)._optimized,
                self.products@.len() == na + j,
                forall|k: int|
                    0 <= k < na ==> (#[trigger] self.products@[k]) == old(self).products@[k],
                forall|k: int|
                    na <= k < na + j ==> (#[trigger] self.products@[k])._terms@ == rhs.products@[k
                        - na]._terms@,
            decreases nb - j,
        {
            self.products.push(rhs.products[j].clone());
            j = j + 1;
        }
        proof {
            assert(products_of_expr(self) =~= products_of_expr(old(self)) + products_of_expr(rhs));
        }
    }

    /// Joins two disjunctions.
    pub fn or_expression(&self, rhs: &Expression) -> (r: Expression)
        ensures
            products_of_expr(&r) == products_of_expr(self) + products_of_expr(rhs),
    {
        let mut new_products: Vec<Product> = Vec::new();
        let na = self.products.len();
        let mut i: usize = 0;
        while i < na
            invariant
                na == self.products@.len(),
                0 <= i <= na,
                new_products@.len() == i,
                forall|k: int|
                    0 <= k < i ==> (#[trigger] new_products@[k])._terms@ == self
                        .products@[k]._terms@,
            decreases na - i,
        {
            new_products.push(self.products[i].clone());
            i = i + 1;
        }
        let nb = rhs.products.len();
        let mut j: usize = 0;
        while j < nb
            invariant
                na == self.products@.len(),
                nb == rhs.products@.len(),
                0 <= j <= nb,
                new_products@.len() == na + j,
                forall|k: int|
                    0 <= k < na ==> (#[trigger] new_products@[k])._terms@ == self
                        .products@[k]._terms@,
                forall|k: int|
                    na <= k < na + j ==> (#[trigger] new_products@[k])._terms@ == rhs.products@[k
                        - na]._terms@,
            decreases nb - j,
        {
            new_products.push(rhs.products[j].clone());
            j = j + 1;
        }
        let r = Expression::new(new_products);
        proof {
            assert(products_of_expr(&r) =~= products_of_expr(self) + products_of_expr(rhs));
        }
        r
    }
}

/// A term reduced to what it constrains: its cell and its state.
pub open spec fn term_content(t: Term) -> (i64, u8) {
    (t.position, t.state)
}

/// The constraint content of a product list, diagnostics stripped.
pub open spec fn content_of(ps: Seq<Seq<Term>>) -> Seq<Seq<(i64, u8)>> {
    Seq::new(ps.len(), |i: int| Seq::new(ps[i].len(), |j: int| term_content(ps[i][j])))
}

/// Content moved along the tape.
pub open spec fn offset_content(c: Seq<Seq<(i64, u8)>>, off: i64) -> Seq<Seq<(i64, u8)>> {
    Seq::new(
        c.len(),
        |i: int| Seq::new(c[i].len(), |j: int| (((c[i][j].0 + off) as i64), c[i][j].1)),
    )
}

/// Content multiplied out, right varying fastest.
pub open spec fn cross_content(a: Seq<Seq<(i64, u8)>>, b: Seq<Seq<(i64, u8)>>) -> Seq<
    Seq<(i64, u8)>,
> {
    Seq::new(a.len() * b.len(), |k: int| a[k / b.len() as int] + b[k % b.len() as int])
}

/// What expanding a single cell constraint yields: the expansion of its
/// state, moved to its cell.
pub open spec fn expand_term_content(t: (i64, u8), m: Map<u8, Expression>) -> Seq<Seq<(i64, u8)>> {
    offset_content(content_of(products_of_expr(&m[t.1])), t.0)
}

/// What expanding a conjunction yields: the product of its constraints'
/// expansions, folded left to right; an empty conjunction expands to nothing.
pub open spec fn expand_product_content(ts: Seq<(i64, u8)>, m: Map<u8, Expression>) -> Seq<
    Seq<(i64, u8)>,
>
    decreases ts.len(),
{
    if ts.len() == 0 {
        Seq::empty()
    } else if ts.len() == 1 {
        expand_term_content(ts[0], m)
    } else {
        cross_content(expand_product_content(ts.drop_last(), m), expand_term_content(ts.last(), m))
    }
}

/// What expanding a disjunction yields: its products' expansions joined.
pub open spec fn expand_content(c: Seq<Seq<(i64, u8)>>, m: Map<u8, Expression>) -> Seq<
    Seq<(i64, u8)>,
>
    decreases c.len(),
{
    if c.len() == 0 {
        Seq::empty()
    } else {
        expand_content(c.drop_last(), m) + expand_product_content(c.last(), m)
    }
}

/// Whether one constraint's expansion stays in the machine's range.
pub open spec fn expand_term_ok(t: (i64, u8), m: Map<u8, Expression>) -> bool {
    forall|a: int, b: int|
        0 <= a < content_of(products_of_expr(&m[t.1])).len() && 0 <= b < content_of(
            products_of_expr(&m[t.1]),
        )[a].len() ==> i64::MIN <= (#[trigger] content_of(products_of_expr(&m[t.1]))[a][b]).0 + t.0
            <= i64::MAX
}

/// Whether one round of expansion is possible: every state has an expansion
/// and every moved position stays in the machine's range.
pub open spec fn expand_ok(c: Seq<Seq<(i64, u8)>>, m: Map<u8, Expression>) -> bool {
    forall|i: int, j: int|
        0 <= i < c.len() && 0 <= j < c[i].len() ==> m.contains_key((#[trigger] c[i][j]).1)
            && expand_term_ok(c[i][j], m)
}

/// Expanding a single-product list is expanding that product.
proof fn lemma_expand_content_single(c: Seq<Seq<(i64, u8)>>, m: Map<u8, Expression>)
    requires
        c.len() == 1,
    ensures
        expand_content(c, m) == expand_product_content(c[0], m),
{
    assert(c.drop_last() =~= Seq::<Seq<(i64, u8)>>::empty());
    assert(expand_content(c.drop_last(), m) =~= Seq::<Seq<(i64, u8)>>::empty());
    assert(c.last() == c[0]);
    assert(expand_content(c, m) == expand_content(c.drop_last(), m) + expand_product_content(
        c[0],
        m,
    ));
    assert(Seq::<Seq<(i64, u8)>>::empty() + expand_product_content(c[0], m)
        =~= expand_product_content(c[0], m));
}

/// Expanding a single-constraint product is expanding that constraint.
proof fn lemma_epc_single(t: (i64, u8), m: Map<u8, Expression>)
    ensures
        expand_product_content(seq![t], m) == expand_term_content(t, m),
{
    assert(seq![t][0] == t);
}

/// The content after some rounds of expansion.
pub open spec fn iter_expand(c: Seq<Seq<(i64, u8)>>, m: Map<u8, Expression>, k: nat) -> Seq<
    Seq<(i64, u8)>,
>
    decreases k,
{
    if k == 0 {
        c
    } else {
        expand_content(iter_expand(c, m, (k - 1) as nat), m)
    }
}

/// Whether some rounds of expansion are possible in a row.
pub open spec fn iter_expand_ok(
    c: Seq<Seq<(i64, u8)>>,
    m: Map<u8, Expression>,
    rounds: nat,
) -> bool {
    forall|k: nat| k < rounds ==> expand_ok(#[trigger] iter_expand(c, m, k), m)
}

/// A value of the expression algebra: it can be substituted into, moved,
/// multiplied out into an expression, and expanded through a mapping.
pub trait AbstractExpression: Sized {
    /// The value's terms, product by product.
    spec fn as_products(&self) -> Seq<Seq<Term>>;

    /// Whether the total term count fits the machine.
    spec fn count_ok(&self) -> bool;

    fn copy(&self) -> (r: Self)
        ensures
            r.as_products() == self.as_products(),
    ;

    /// Whether the value holds under a cell assignment, absent cells reading
    /// the default state.
    fn _sub(&self, substitutions: &HashMap<i64, u8>, default: u8) -> (r: bool)
        ensures
            r == sub_spec(self.as_products(), substitutions@, default),
    ;

    fn offset(&self, offset: i64) -> (r: Self)
        requires
            offset_in_range(self.as_products(), offset),
        ensures
            r.as_products() == offset_products(self.as_products(), offset),
    ;

    /// One round of expansion through the mapping.
    fn _expand(&self, expansion_mapping: &HashMap<u8, Expression>) -> (r: Expression)
        requires
            expand_ok(content_of(self.as_products()), expansion_mapping@),
        ensures
            content_of(products_of_expr(&r)) == expand_content(
                content_of(self.as_products()),
                expansion_mapping@,
            ),
            self.expand_assigns_positions() ==> r.all_positions_assigned(),
    ;

    /// Whether one round of expansion already stamps every term's place.
    spec fn expand_assigns_positions(&self) -> bool;

    /// Some rounds of expansion in a row; a conjunction expands at least
    /// once even when no rounds are asked for.
    fn _expand_steps(&self, expansion_mapping: &HashMap<u8, Expression>, steps: u64) -> (r:
        Expression)
        requires
            iter_expand_ok(
                content_of(self.as_products()),
                expansion_mapping@,
                self.spec_rounds(steps),
            ),
        ensures
            content_of(products_of_expr(&r)) == iter_expand(
                content_of(self.as_products()),
                expansion_mapping@,
                self.spec_rounds(steps),
            ),
            r.all_positions_assigned(),
    ;

    /// How many rounds of expansion a request for `steps` runs.
    spec fn spec_rounds(&self, steps: u64) -> nat;

    fn to_expression(&self) -> (r: Expression)
        ensures
            products_of_expr(&r) == self.as_products(),
    ;

    /// The value as text, cells written with the given name.
    fn _to_string(&self, name: &str) -> String;

    fn _get_num_terms(&self) -> (r: usize)
        requires
            self.count_ok(),
        ensures
            r == terms_total(self.as_products()),
    ;

    /// Stamps every term with its place, treating the value as the whole
    /// expression.
    fn _assign_indexes_as_base(&mut self)
        ensures
            final(self).as_products().len() == old(self).as_products().len(),
            forall|i: int|
                0 <= i < final(self).as_products().len() ==> (#[trigger] final(self).as_products()[i]).len() == old(self).as_products()[i].len(),
            forall|i: int, j: int|
                0 <= i < final(self).as_products().len() && 0 <= j
                    < final(self).as_products()[i].len()
                    ==> (#[trigger] final(self).as_products()[i][j]) == stamp_term(old(self).as_products()[i][j], i, j),
    ;
}

impl Expression {
    /// Numbers every term with its index within this expansion round; the
    /// counter is kept in sixteen bits, as the trail only serves diagnostics.
    fn _assign_base_expansion_indexes(&mut self)
        ensures
            final(self).products@.len() == old(self).products@.len(),
            forall|i: int|
                0 <= i < final(self).products@.len() ==> (#[trigger] final(self).products@[i])
                    ._terms@.len() == old(self).products@[i]._terms@.len(),
            forall|i: int, j: int|
                0 <= i < final(self).products@.len() && 0 <= j < (#[trigger] final(self).products@[i])._terms@.len() ==> {
                    let t = #[trigger] final(self).products@[i]._terms@[j];
                    let o = old(self).products@[i]._terms@[j];
                    t.position == o.position && t.state == o.state && t._optimized == o._optimized
                        && t._debug_info.position_info == o._debug_info.position_info
                        && t._debug_info.parent_position_info == o._debug_info.parent_position_info
                },
    {
        let mut expansion_index: usize = 0;
        let n = self.products.len();
        let mut i: usize = 0;
        while i < n
            invariant
                n == self.products@.len(),
                0 <= i <= n,
                forall|j: int|
                    i <= j < n ==> self.products@[j] == (#[trigger] old(self).products@[j]),
                forall|a: int|
                    0 <= a < i ==> (#[trigger] self.products@[a])._terms@.len() == old(
                        self,
                    ).products@[a]._terms@.len(),
                forall|a: int, b: int|
                    0 <= a < i && 0 <= b < (#[trigger] self.products@[a])._terms@.len() ==> {
                        let t = #[trigger] self.products@[a]._terms@[b];
                        let o = old(self).products@[a]._terms@[b];
                        t.position == o.position && t.state == o.state && t._optimized
                            == o._optimized && t._debug_info.position_info
                            == o._debug_info.position_info && t._debug_info.parent_position_info
                            == o._debug_info.parent_position_info
                    },
            decreases n - i,
        {
            let mut p = self.products[i].clone();
            proof {
                assert(p._terms@ == self.products@[i as int]._terms@);
            }
            let m = p._terms.len();
            let mut k: usize = 0;
            while k < m
                invariant
                    m == p._terms@.len(),
                    0 <= k <= m,
                    p._terms@.len() == old(self).products@[i as int]._terms@.len(),
                    n == self.products@.len(),
                    0 <= i < n,
                    forall|b: int|
                        0 <= b < m ==> {
                            let t = #[trigger] p._terms@[b];
                            let o = old(self).products@[i as int]._terms@[b];
                            t.position == o.position && t.state == o.state && t._optimized
                                == o._optimized && t._debug_info.position_info
                                == o._debug_info.position_info
                                && t._debug_info.parent_position_info
                                == o._debug_info.parent_position_info
                        },
                decreases m - k,
            {
                let mut t = p._terms[k];
                #[verifier::truncate]
                let idx = expansion_index as u16;
                t._debug_info.expansion_index = idx;
                p._terms.set(k, t);
                if expansion_index < usize::MAX {
                    expansion_index = expansion_index + 1;
                }
                k = k + 1;
            }
            self.products.set(i, p);
            i = i + 1;
        }
    }
}

/// Content is untouched by moves' bookkeeping: matching terms have equal
/// content.
proof fn lemma_content_of_match(a: Seq<Seq<Term>>, b: Seq<Seq<Term>>)
    requires
        a.len() == b.len(),
        forall|i: int| 0 <= i < a.len() ==> (#[trigger] a[i]).len() == b[i].len(),
        forall|i: int, j: int|
            0 <= i < a.len() && 0 <= j < (#[trigger] a[i]).len() ==> (#[trigger] a[i][j]).position
                == b[i][j].position && a[i][j].state == b[i][j].state,
    ensures
        content_of(a) == content_of(b),
{
    assert(content_of(a) =~~= content_of(b));
}

/// Moving terms then reading content is reading content then moving it.
proof fn lemma_content_offset(ps: Seq<Seq<Term>>, off: i64)
    ensures
        content_of(offset_products(ps, off)) == offset_content(content_of(ps), off),
{
    assert(content_of(offset_products(ps, off)) =~~= offset_content(content_of(ps), off));
}

impl AbstractExpression for Term {
    open spec fn as_products(&self) -> Seq<Seq<Term>> {
        seq![seq![*self]]
    }

    open spec fn count_ok(&self) -> bool {
        true
    }

    open spec fn spec_rounds(&self, steps: u64) -> nat {
        steps as nat
    }

    open spec fn expand_assigns_positions(&self) -> bool {
        false
    }

    fn copy(&self) -> (r: Self) {
        *self
    }

    fn _sub(&self, substitutions: &HashMap<i64, u8>, default: u8) -> (r: bool) {
        let r = match substitutions.get(&self.position) {
            Some(v) => *v == self.state,
            None => default == self.state,
        };
        proof {
            assert(self.as_products()[0] == seq![*self]);
            assert(self.as_products()[0][0] == *self);
            if r {
                assert(product_sub_spec(self.as_products()[0], substitutions@, default)) by {
                    assert(term_sub_spec(self.as_products()[0][0], substitutions@, default));
                }
            } else {
                assert(!term_sub_spec(self.as_products()[0][0], substitutions@, default));
                assert(forall|i: int|
                    0 <= i < self.as_products().len() ==> !product_sub_spec(
                        #[trigger] self.as_products()[i],
                        substitutions@,
                        default,
                    ));
            }
        }
        r
    }

    fn offset(&self, offset: i64) -> (r: Self) {
        proof {
            assert(self.as_products()[0] == seq![*self]);
            assert(self.as_products()[0][0] == *self);
        }
        let r = Term::new(self.position + offset, self.state, self._optimized);
        proof {
            assert(r.as_products() =~~= offset_products(self.as_products(), offset));
        }
        r
    }

    fn _expand(&self, expansion_mapping: &HashMap<u8, Expression>) -> (r: Expression) {
        self.expand_one(expansion_mapping)
    }

    fn _expand_steps(&self, expansion_mapping: &HashMap<u8, Expression>, steps: u64) -> (r:
        Expression) {
        let mut expr = self.to_expression();
        proof {
            assert(products_of_expr(&expr) == self.as_products());
        }
        expr._assign_expr_positions();
        proof {
            lemma_content_of_match_stamp(self.as_products(), products_of_expr(&expr));
        }
        expr.expand_rounds(expansion_mapping, steps)
    }

    fn to_expression(&self) -> (r: Expression) {
        let mut terms: Vec<Term> = Vec::new();
        terms.push(*self);
        let mut products: Vec<Product> = Vec::new();
        products.push(Product::new(terms));
        let r = Expression::new(products);
        proof {
            assert(products_of_expr(&r) =~~= self.as_products());
        }
        r
    }

    fn _to_string(&self, name: &str) -> (r: String) {
        let mut s = String::from_str(name);
        s.append("(");
        s.append(crate::emit::i64_to_string(self.position).as_str());
        s.append(",");
        s.append(u64_to_string(self.state as u64).as_str());
        s.append(")");
        s
    }

    fn _get_num_terms(&self) -> (r: usize) {
        proof {
            assert(self.as_products().drop_last() =~= Seq::<Seq<Term>>::empty());
            assert(terms_total(self.as_products().drop_last()) == 0);
            assert(self.as_products().last().len() == 1);
        }
        1
    }

    fn _assign_indexes_as_base(&mut self) {
        let ghost o = *self;
        self._assign_expr_position(0, 0);
        proof {
            assert(self.as_products()[0] =~= seq![*self]);
            assert(self.as_products()[0][0] == stamp_term(o.as_products()[0][0], 0, 0));
        }
    }
}

impl Term {
    /// One round of expansion of a single constraint: the expansion of its
    /// state, moved to its cell, with the diagnostic trail rebuilt.
    pub fn expand_one(&self, expansion_mapping: &HashMap<u8, Expression>) -> (r: Expression)
        requires
            expand_ok(content_of(self.as_products()), expansion_mapping@),
        ensures
            content_of(products_of_expr(&r)) == expand_content(
                content_of(self.as_products()),
                expansion_mapping@,
            ),
    {
        proof {
            assert(content_of(self.as_products())[0] =~= seq![term_content(*self)]);
            assert(content_of(self.as_products())[0][0] == term_content(*self));
        }
        let src = match expansion_mapping.get(&self.state) {
            Some(e) => e,
            None => unreached(),
        };
        proof {
            assert(offset_in_range(products_of_expr(src), self.position)) by {
                assert forall|a: int, b: int|
                    0 <= a < products_of_expr(src).len() && 0 <= b < products_of_expr(
                        src,
                    )[a].len() implies i64::MIN <= (#[trigger] products_of_expr(src)[a][b]).position
                    + self.position <= i64::MAX by {
                    let c = content_of(products_of_expr(&expansion_mapping@[self.state]));
                    assert(c[a][b].0 == products_of_expr(src)[a][b].position);
                }
            }
        }
        let mut expanded_expr = src.offset_by(self.position);
        expanded_expr._assign_parent_debug_info(&self._debug_info);
        expanded_expr._assign_base_expansion_indexes();
        proof {
            lemma_content_offset(products_of_expr(src), self.position);
            lemma_content_of_match(
                products_of_expr(&expanded_expr),
                offset_products(products_of_expr(src), self.position),
            );
            lemma_expand_content_single(content_of(self.as_products()), expansion_mapping@);
            lemma_epc_single(term_content(*self), expansion_mapping@);
            assert(content_of(self.as_products())[0] =~= seq![term_content(*self)]);
            assert(content_of(products_of_expr(&expanded_expr)) =~= expand_content(
                content_of(self.as_products()),
                expansion_mapping@,
            ));
        }
        expanded_expr
    }
}

/// Reading the content of multiplied-out products.
proof fn lemma_cross_content(a: Seq<Seq<Term>>, b: Seq<Seq<Term>>)
    ensures
        content_of(cross_products(a, b)) == cross_content(content_of(a), content_of(b)),
{
    let lhs = content_of(cross_products(a, b));
    let rhs = cross_content(content_of(a), content_of(b));
    assert forall|k: int| 0 <= k < lhs.len() implies #[trigger] lhs[k] == rhs[k] by {
        let bl = b.len() as int;
        let i = k / bl;
        let j = k % bl;
        assert(0 <= i < a.len() && 0 <= j < bl) by (nonlinear_arith)
            requires
                bl > 0,
                0 <= k < a.len() * bl,
                i == k / bl,
                j == k % bl,
        ;
        assert(cross_products(a, b)[k] == a[i] + b[j]);
        assert(rhs[k] == content_of(a)[i] + content_of(b)[j]);
        assert(lhs[k] =~= rhs[k]);
    }
    assert(lhs =~= rhs);
}

/// Reading the content of joined products.
proof fn lemma_concat_content(a: Seq<Seq<Term>>, b: Seq<Seq<Term>>)
    ensures
        content_of(a + b) == content_of(a) + content_of(b),
{
    assert forall|k: int| 0 <= k < (a + b).len() implies #[trigger] content_of(a + b)[k] == (
    content_of(a) + content_of(b))[k] by {
        if k < a.len() {
            assert((a + b)[k] == a[k]);
            assert(content_of(a + b)[k] =~= content_of(a)[k]);
        } else {
            assert((a + b)[k] == b[k - a.len()]);
            assert(content_of(a + b)[k] =~= content_of(b)[k - a.len()]);
        }
    }
    assert(content_of(a + b) =~= content_of(a) + content_of(b));
}

/// Every prefix of a product list holds at most the whole list's terms.
proof fn lemma_terms_total_prefix(ps: Seq<Seq<Term>>, k: int)
    requires
        0 <= k <= ps.len(),
    ensures
        0 <= terms_total(ps.take(k)) <= terms_total(ps),
        k < ps.len() ==> terms_total(ps.take(k + 1)) == terms_total(ps.take(k)) + ps[k].len(),
    decreases ps.len() - k,
{
    if k < ps.len() {
        assert(ps.take(k + 1).drop_last() == ps.take(k));
        assert(ps.take(k + 1).last() == ps[k]);
        lemma_terms_total_prefix(ps, k + 1);
        lemma_terms_total_nonneg(ps.take(k));
    } else {
        assert(ps.take(k) == ps);
        lemma_terms_total_nonneg(ps);
    }
}

/// A term count is never negative.
proof fn lemma_terms_total_nonneg(ps: Seq<Seq<Term>>)
    ensures
        terms_total(ps) >= 0,
    decreases ps.len(),
{
    if ps.len() > 0 {
        lemma_terms_total_nonneg(ps.drop_last());
    }
}

impl AbstractExpression for Product {
    open spec fn as_products(&self) -> Seq<Seq<Term>> {
        seq![self._terms@]
    }

    open spec fn count_ok(&self) -> bool {
        true
    }

    open spec fn spec_rounds(&self, steps: u64) -> nat {
        if steps == 0 {
            1
        } else {
            steps as nat
        }
    }

    open spec fn expand_assigns_positions(&self) -> bool {
        true
    }

    fn copy(&self) -> (r: Self) {
        let r = self.clone();
        proof {
            assert(r.as_products() =~= self.as_products());
        }
        r
    }

    fn _sub(&self, substitutions: &HashMap<i64, u8>, default: u8) -> (r: bool) {
        let ghost ps = self.as_products();
        proof {
            assert(ps[0] == self._terms@);
        }
        let n = self._terms.len();
        let mut i: usize = 0;
        while i < n
            invariant
                n == self._terms@.len(),
                ps == self.as_products(),
                ps[0] == self._terms@,
                0 <= i <= n,
                forall|j: int|
                    0 <= j < i ==> term_sub_spec(#[trigger] self._terms@[j], substitutions@, default),
            decreases n - i,
        {
            let t = self._terms[i];
            let holds = match substitutions.get(&t.position) {
                Some(v) => *v == t.state,
                None => default == t.state,
            };
            if !holds {
                proof {
                    assert(!term_sub_spec(self._terms@[i as int], substitutions@, default));
                    assert(!product_sub_spec(ps[0], substitutions@, default));
                    assert(forall|q: int|
                        0 <= q < ps.len() ==> !product_sub_spec(
                            #[trigger] ps[q],
                            substitutions@,
                            default,
                        ));
                }
                return false;
            }
            i = i + 1;
        }
        proof {
            assert(product_sub_spec(ps[0], substitutions@, default));
        }
        true
    }

    fn offset(&self, offset: i64) -> (r: Self) {
        let ghost ps = self.as_products();
        proof {
            assert(ps[0] == self._terms@);
        }
        let n = self._terms.len();
        let mut new_terms: Vec<Term> = Vec::new();
        let mut i: usize = 0;
        while i < n
            invariant
                n == self._terms@.len(),
                ps == self.as_products(),
                ps[0] == self._terms@,
                offset_in_range(ps, offset),
                0 <= i <= n,
                new_terms@.len() == i,
                forall|j: int|
                    0 <= j < i ==> #[trigger] new_terms@[j] == offset_term(self._terms@[j], offset),
            decreases n - i,
        {
            let t = self._terms[i];
            proof {
                assert(self._terms@[i as int] == t);
                assert(i64::MIN <= ps[0][i as int].position + offset <= i64::MAX);
            }
            new_terms.push(Term::new(t.position + offset, t.state, t._optimized));
            i = i + 1;
        }
        let r = Product::new(new_terms);
        proof {
            assert(r.as_products() =~~= offset_products(ps, offset));
        }
        r
    }

    fn _expand(&self, expansion_mapping: &HashMap<u8, Expression>) -> (r: Expression) {
        self.expand_value(expansion_mapping)
    }

    fn _expand_steps(&self, expansion_mapping: &HashMap<u8, Expression>, steps: u64) -> (r:
        Expression) {
        let ghost c = content_of(self.as_products());
        let mut copy = self.clone();
        proof {
            assert(copy.as_products() =~= self.as_products());
        }
        copy._assign_base_indexes(0);
        proof {
            assert forall|i: int, j: int|
                0 <= i < copy.as_products().len() && 0 <= j < copy.as_products()[i].len() implies (
            #[trigger] copy.as_products()[i][j]) == stamp_term(self.as_products()[i][j], i, j) by {
                assert(copy._terms@[j] == stamp_term(self._terms@[j], 0, j));
            }
            lemma_content_of_match_stamp(self.as_products(), copy.as_products());
            assert(iter_expand(c, expansion_mapping@, 0) == c);
            assert(expand_ok(iter_expand(c, expansion_mapping@, 0), expansion_mapping@));
        }
        let mut result = copy.expand_value(expansion_mapping);
        proof {
            assert(content_of(products_of_expr(&result)) == iter_expand(c, expansion_mapping@, 1));
        }
        if steps == 0 {
            return result;
        }
        let mut i: u64 = 1;
        while i < steps
            invariant
                1 <= i <= steps || (steps == 0 && i == 1),
                steps >= 1,
                c == content_of(self.as_products()),
                iter_expand_ok(c, expansion_mapping@, steps as nat),
                result.all_positions_assigned(),
                content_of(products_of_expr(&result)) == iter_expand(
                    c,
                    expansion_mapping@,
                    i as nat,
                ),
            decreases steps - i,
        {
            proof {
                assert(expand_ok(iter_expand(c, expansion_mapping@, i as nat), expansion_mapping@));
            }
            result = result.expand_once(expansion_mapping);
            i = i + 1;
        }
        result
    }

    fn to_expression(&self) -> (r: Expression) {
        let mut products: Vec<Product> = Vec::new();
        products.push(self.clone());
        let r = Expression::new(products);
        proof {
            assert(products_of_expr(&r) =~~= self.as_products());
        }
        r
    }

    fn _to_string(&self, name: &str) -> (r: String) {
        let mut s = String::new();
        let n = self._terms.len();
        let mut i: usize = 0;
        while i < n
            invariant
                n == self._terms@.len(),
                0 <= i <= n,
            decreases n - i,
        {
            if i > 0 {
                s.append("*");
            }
            let t = self._terms[i];
            s.append(t._to_string(name).as_str());
            i = i + 1;
        }
        s
    }

    fn _get_num_terms(&self) -> (r: usize) {
        proof {
            assert(self.as_products().drop_last() =~= Seq::<Seq<Term>>::empty());
            assert(terms_total(self.as_products().drop_last()) == 0);
            assert(self.as_products().last() == self._terms@);
        }
        self._terms.len()
    }

    fn _assign_indexes_as_base(&mut self) {
        let ghost o = *self;
        self._assign_base_indexes(0);
        proof {
            assert(self.as_products()[0] == self._terms@);
            assert forall|i: int, j: int|
                0 <= i < self.as_products().len() && 0 <= j < self.as_products()[i].len() implies (
            #[trigger] self.as_products()[i][j]) == stamp_term(o.as_products()[i][j], i, j) by {
                assert(self._terms@[j] == stamp_term(o._terms@[j], 0, j));
            }
        }
    }
}

impl Product {
    /// One round of expansion of a conjunction: the product of each
    /// constraint's expansion, places stamped at the end.
    pub fn expand_value(&self, expansion_mapping: &HashMap<u8, Expression>) -> (r: Expression)
        requires
            expand_ok(content_of(seq![self._terms@]), expansion_mapping@),
        ensures
            content_of(products_of_expr(&r)) == expand_content(
                content_of(seq![self._terms@]),
                expansion_mapping@,
            ),
            r.all_positions_assigned(),
    {
        let ghost c = content_of(self.as_products());
        proof {
            assert(c[0] =~= Seq::new(self._terms@.len(), |j: int| term_content(self._terms@[j])));
        }
        let n = self._terms.len();
        if n == 0 {
            let mut r = Expression::new(Vec::new());
            proof {
                assert(content_of(products_of_expr(&r)) =~= Seq::<Seq<(i64, u8)>>::empty());
                assert(c[0].len() == 0);
                lemma_expand_content_single(c, expansion_mapping@);
                assert(expand_product_content(c[0], expansion_mapping@) =~= Seq::<
                    Seq<(i64, u8)>,
                >::empty());
                assert(r.all_positions_assigned());
            }
            return r;
        }
        let first = self._terms[0];
        proof {
            assert(c[0][0] == term_content(first));
            assert forall|a: int, b: int|
                0 <= a < content_of(first.as_products()).len() && 0 <= b < content_of(
                    first.as_products(),
                )[a].len() implies expansion_mapping@.contains_key((#[trigger] content_of(
                    first.as_products(),
                )[a][b]).1) && expand_term_ok(content_of(first.as_products())[a][b], expansion_mapping@) by {
                assert(content_of(first.as_products())[a][b] == c[0][0]);
            }
        }
        let mut result = first.expand_one(expansion_mapping);
        proof {
            assert(content_of(first.as_products())[0] =~= seq![term_content(first)]);
            lemma_expand_content_single(content_of(first.as_products()), expansion_mapping@);
            assert(seq![term_content(first)] =~= c[0].take(1));
            assert(content_of(products_of_expr(&result)) == expand_product_content(
                c[0].take(1),
                expansion_mapping@,
            ));
        }
        let mut k: usize = 1;
        while k < n
            invariant
                n == self._terms@.len(),
                c == content_of(self.as_products()),
                c[0] == Seq::new(self._terms@.len(), |j: int| term_content(self._terms@[j])),
                expand_ok(c, expansion_mapping@),
                1 <= k <= n,
                content_of(products_of_expr(&result)) == expand_product_content(
                    c[0].take(k as int),
                    expansion_mapping@,
                ),
            decreases n - k,
        {
            let t = self._terms[k];
            proof {
                assert(c[0][k as int] == term_content(t));
                assert forall|a: int, b: int|
                    0 <= a < content_of(t.as_products()).len() && 0 <= b < content_of(
                        t.as_products(),
                    )[a].len() implies expansion_mapping@.contains_key((#[trigger] content_of(
                        t.as_products(),
                    )[a][b]).1) && expand_term_ok(content_of(t.as_products())[a][b], expansion_mapping@) by {
                    assert(content_of(t.as_products())[a][b] == c[0][k as int]);
                }
            }
            let expanded = t.expand_one(expansion_mapping);
            let next = result.multiply_expression(&expanded);
            proof {
                lemma_cross_content(products_of_expr(&result), products_of_expr(&expanded));
                assert(content_of(t.as_products())[0] =~= seq![term_content(t)]);
                lemma_expand_content_single(content_of(t.as_products()), expansion_mapping@);
                lemma_epc_single(term_content(t), expansion_mapping@);
                assert(c[0].take(k as int + 1).drop_last() == c[0].take(k as int));
                assert(c[0].take(k as int + 1).last() == c[0][k as int]);
                assert(content_of(products_of_expr(&next)) == expand_product_content(
                    c[0].take(k as int + 1),
                    expansion_mapping@,
                ));
            }
            result = next;
            k = k + 1;
        }
        let ghost before = products_of_expr(&result);
        result._assign_expr_positions();
        proof {
            lemma_content_of_match_stamp(before, products_of_expr(&result));
        }
        proof {
            assert(c[0].take(n as int) =~= c[0]);
            assert(c.drop_last() =~= Seq::<Seq<(i64, u8)>>::empty());
            assert(expand_content(c, expansion_mapping@) == expand_product_content(
                c[0],
                expansion_mapping@,
            )) by {
                assert(expand_content(c.drop_last(), expansion_mapping@) =~= Seq::<
                    Seq<(i64, u8)>,
                >::empty());
                assert(Seq::<Seq<(i64, u8)>>::empty() + expand_product_content(
                    c[0],
                    expansion_mapping@,
                ) =~= expand_product_content(c[0], expansion_mapping@));
            }
        }
        result
    }
}


impl AbstractExpression for Expression {
    open spec fn as_products(&self) -> Seq<Seq<Term>> {
        products_of_expr(self)
    }

    open spec fn count_ok(&self) -> bool {
        terms_total(products_of_expr(self)) <= usize::MAX
    }

    open spec fn spec_rounds(&self, steps: u64) -> nat {
        steps as nat
    }

    open spec fn expand_assigns_positions(&self) -> bool {
        true
    }

    fn copy(&self) -> (r: Self) {
        let r = self.clone();
        proof {
            assert(r.as_products() =~~= self.as_products());
        }
        r
    }

    fn _sub(&self, substitutions: &HashMap<i64, u8>, default: u8) -> (r: bool) {
        let ghost ps = self.as_products();
        let n = self.products.len();
        let mut i: usize = 0;
        while i < n
            invariant
                n == self.products@.len(),
                ps == self.as_products(),
                0 <= i <= n,
                forall|j: int|
                    0 <= j < i ==> !product_sub_spec(#[trigger] ps[j], substitutions@, default),
            decreases n - i,
        {
            let holds = self.products[i]._sub(substitutions, default);
            proof {
                assert(self.products@[i as int].as_products()[0] == self.products@[i as int]._terms@);
                assert(ps[i as int] == self.products@[i as int]._terms@);
                if holds {
                    assert(product_sub_spec(ps[i as int], substitutions@, default));
                } else {
                    assert(!product_sub_spec(ps[i as int], substitutions@, default));
                }
            }
            if holds {
                return true;
            }
            i = i + 1;
        }
        false
    }

    fn offset(&self, offset: i64) -> (r: Self) {
        self.offset_by(offset)
    }

    fn _expand(&self, expansion_mapping: &HashMap<u8, Expression>) -> (r: Expression) {
        self.expand_once(expansion_mapping)
    }

    fn _expand_steps(&self, expansion_mapping: &HashMap<u8, Expression>, steps: u64) -> (r:
        Expression) {
        self.expand_rounds(expansion_mapping, steps)
    }

    fn to_expression(&self) -> (r: Expression) {
        let r = self.clone();
        proof {
            assert(products_of_expr(&r) =~~= self.as_products());
        }
        r
    }

    fn _to_string(&self, name: &str) -> (r: String) {
        let mut s = String::new();
        let n = self.products.len();
        let mut i: usize = 0;
        while i < n
            invariant
                n == self.products@.len(),
                0 <= i <= n,
            decreases n - i,
        {
            if i > 0 {
                s.append(" | ");
            }
            s.append(self.products[i]._to_string(name).as_str());
            i = i + 1;
        }
        s
    }

    fn _get_num_terms(&self) -> (r: usize) {
        let ghost ps = self.as_products();
        let n = self.products.len();
        let mut total: usize = 0;
        let mut i: usize = 0;
        while i < n
            invariant
                n == self.products@.len(),
                ps == self.as_products(),
                terms_total(ps) <= usize::MAX,
                0 <= i <= n,
                total == terms_total(ps.take(i as int)),
            decreases n - i,
        {
            proof {
                lemma_terms_total_prefix(ps, i as int);
                lemma_terms_total_prefix(ps, i as int + 1);
                assert(ps[i as int] == self.products@[i as int]._terms@);
            }
            total = total + self.products[i]._terms.len();
            i = i + 1;
        }
        proof {
            assert(ps.take(n as int) == ps);
        }
        total
    }

    fn _assign_indexes_as_base(&mut self) {
        self._assign_expr_positions();
        proof {
            assert forall|i: int, j: int|
                0 <= i < self.as_products().len() && 0 <= j < self.as_products()[i].len() implies (
            #[trigger] self.as_products()[i][j]) == stamp_term(
                old(self).as_products()[i][j],
                i,
                j,
            ) by {
                assert(self.products@[i]._terms@[j] == stamp_term(
                    old(self).products@[i]._terms@[j],
                    i,
                    j,
                ));
            }
        }
    }
}

impl Expression {
    /// The whole disjunction moved along the tape; the moves build fresh
    /// terms, so every diagnostic trail starts over.
    pub fn offset_by(&self, offset: i64) -> (r: Expression)
        requires
            offset_in_range(products_of_expr(self), offset),
        ensures
            products_of_expr(&r) == offset_products(products_of_expr(self), offset),
    {
        let ghost ps = products_of_expr(self);
        let n = self.products.len();
        let mut products: Vec<Product> = Vec::new();
        let mut i: usize = 0;
        while i < n
            invariant
                n == self.products@.len(),
                ps == products_of_expr(self),
                offset_in_range(ps, offset),
                0 <= i <= n,
                products@.len() == i,
                forall|j: int|
                    0 <= j < i ==> (#[trigger] products@[j])._terms@ == Seq::new(
                        ps[j].len(),
                        |k: int| offset_term(ps[j][k], offset),
                    ),
            decreases n - i,
        {
            let p = &self.products[i];
            proof {
                assert(p.as_products()[0] == p._terms@);
                assert(ps[i as int] == p._terms@);
                assert(offset_in_range(p.as_products(), offset)) by {
                    assert forall|a: int, b: int|
                        0 <= a < p.as_products().len() && 0 <= b < p.as_products()[a].len()
                        implies i64::MIN <= (#[trigger] p.as_products()[a][b]).position + offset
                        <= i64::MAX by {
                        assert(p.as_products()[a][b] == ps[i as int][b]);
                    }
                }
            }
            let moved = p.offset(offset);
            proof {
                assert(moved.as_products()[0] == moved._terms@);
                assert(offset_products(p.as_products(), offset)[0] =~= Seq::new(
                    p._terms@.len(),
                    |k: int| offset_term(p._terms@[k], offset),
                ));
                assert(moved._terms@ =~= Seq::new(
                    ps[i as int].len(),
                    |k: int| offset_term(ps[i as int][k], offset),
                ));
            }
            products.push(moved);
            i = i + 1;
        }
        let r = Expression::new(products);
        proof {
            assert(products_of_expr(&r) =~~= offset_products(ps, offset));
        }
        r
    }

    /// One round of expansion of a disjunction: each product expands and the
    /// results join, places stamped at the end.
    pub fn expand_once(&self, expansion_mapping: &HashMap<u8, Expression>) -> (r: Expression)
        requires
            expand_ok(content_of(products_of_expr(self)), expansion_mapping@),
        ensures
            content_of(products_of_expr(&r)) == expand_content(
                content_of(products_of_expr(self)),
                expansion_mapping@,
            ),
            r.all_positions_assigned(),
    {
        let ghost c = content_of(self.as_products());
        let n = self.products.len();
        let mut expanded_expression = Expression::new(Vec::new());
        proof {
            assert(content_of(products_of_expr(&expanded_expression)) =~= Seq::<
                Seq<(i64, u8)>,
            >::empty());
            assert(c.take(0) =~= Seq::<Seq<(i64, u8)>>::empty());
        }
        let mut i: usize = 0;
        while i < n
            invariant
                n == self.products@.len(),
                c == content_of(self.as_products()),
                expand_ok(c, expansion_mapping@),
                0 <= i <= n,
                content_of(products_of_expr(&expanded_expression)) == expand_content(
                    c.take(i as int),
                    expansion_mapping@,
                ),
            decreases n - i,
        {
            let p = &self.products[i];
            proof {
                assert(self.as_products()[i as int] == p._terms@);
                assert(p.as_products()[0] == p._terms@);
                assert(content_of(p.as_products())[0] =~= c[i as int]);
                assert(expand_ok(content_of(p.as_products()), expansion_mapping@)) by {
                    assert forall|a: int, b: int|
                        0 <= a < content_of(p.as_products()).len() && 0 <= b < content_of(
                            p.as_products(),
                        )[a].len() implies expansion_mapping@.contains_key((#[trigger] content_of(
                            p.as_products(),
                        )[a][b]).1) && expand_term_ok(content_of(p.as_products())[a][b], expansion_mapping@) by {
                        assert(content_of(p.as_products())[a][b] == c[i as int][b]);
                    }
                }
            }
            let expanded_subexpression = p.expand_value(expansion_mapping);
            let ghost acc_before = products_of_expr(&expanded_expression);
            expanded_expression.append_products(&expanded_subexpression);
            proof {
                lemma_concat_content(
                    acc_before,
                    products_of_expr(&expanded_subexpression),
                );
                lemma_expand_content_single(content_of(p.as_products()), expansion_mapping@);
                assert(content_of(p.as_products())[0] =~= c[i as int]);
                assert(c.take(i as int + 1).drop_last() == c.take(i as int));
                assert(c.take(i as int + 1).last() == c[i as int]);
                assert(content_of(products_of_expr(&expanded_expression)) == expand_content(
                    c.take(i as int + 1),
                    expansion_mapping@,
                ));
            }
            i = i + 1;
        }
        let ghost before = products_of_expr(&expanded_expression);
        expanded_expression._assign_expr_positions();
        proof {
            lemma_content_of_match_stamp(before, products_of_expr(&expanded_expression));
            assert(c.take(n as int) =~= c);
        }
        expanded_expression
    }

    /// Some rounds of expansion in a row, starting from freshly stamped
    /// places.
    pub fn expand_rounds(&self, expansion_mapping: &HashMap<u8, Expression>, steps: u64) -> (r:
        Expression)
        requires
            iter_expand_ok(content_of(products_of_expr(self)), expansion_mapping@, steps as nat),
        ensures
            content_of(products_of_expr(&r)) == iter_expand(
                content_of(products_of_expr(self)),
                expansion_mapping@,
                steps as nat,
            ),
            r.all_positions_assigned(),
    {
        let ghost c = content_of(products_of_expr(self));
        let mut result = self.clone();
        proof {
            assert(products_of_expr(&result) =~= products_of_expr(self));
        }
        result._assign_expr_positions();
        proof {
            lemma_content_of_match_stamp(products_of_expr(self), products_of_expr(&result));
        }
        let mut i: u64 = 0;
        while i < steps
            invariant
                0 <= i <= steps,
                c == content_of(products_of_expr(self)),
                iter_expand_ok(c, expansion_mapping@, steps as nat),
                result.all_positions_assigned(),
                content_of(products_of_expr(&result)) == iter_expand(
                    c,
                    expansion_mapping@,
                    i as nat,
                ),
            decreases steps - i,
        {
            proof {
                assert(expand_ok(iter_expand(c, expansion_mapping@, i as nat), expansion_mapping@));
            }
            result = result.expand_once(expansion_mapping);
            i = i + 1;
        }
        result
    }
}

/// Reading content ignores the stamps a base assignment writes.
proof fn lemma_content_of_match_stamp(a: Seq<Seq<Term>>, b: Seq<Seq<Term>>)
    requires
        a.len() == b.len(),
        forall|i: int| 0 <= i < a.len() ==> (#[trigger] a[i]).len() == b[i].len(),
        forall|i: int, j: int|
            0 <= i < a.len() && 0 <= j < a[i].len() ==> (#[trigger] b[i][j]) == stamp_term(
                a[i][j],
                i,
                j,
            ),
    ensures
        content_of(a) == content_of(b),
{
    assert(content_of(a) =~~= content_of(b));
}

/// Checks that every term of an expression carries its position trail.
pub fn validate_debug_info_exists(expr: &Expression) -> (r: bool)
    ensures
        r == (forall|i: int, j: int|
            0 <= i < expr.products@.len() && 0 <= j < (#[trigger] expr.products@[i])._terms@.len()
                ==> (#[trigger] expr.products@[i]._terms@[j])._debug_info.position_info is Some),
{
    let n = expr.products.len();
    let mut i: usize = 0;
    while i < n
        invariant
            n == expr.products@.len(),
            0 <= i <= n,
            forall|a: int, b: int|
                0 <= a < i && 0 <= b < (#[trigger] expr.products@[a])._terms@.len() ==> (
                #[trigger] expr.products@[a]._terms@[b])._debug_info.position_info is Some,
        decreases n - i,
    {
        let m = expr.products[i]._terms.len();
        let mut k: usize = 0;
        while k < m
            invariant
                n == expr.products@.len(),
                0 <= i < n,
                m == expr.products@[i as int]._terms@.len(),
                0 <= k <= m,
                forall|b: int|
                    0 <= b < k ==> (#[trigger] expr.products@[i as int]._terms@[b])
                        ._debug_info.position_info is Some,
            decreases m - k,
        {
            if expr.products[i]._terms[k]._debug_info.position_info.is_none() {
                return false;
            }
            k = k + 1;
        }
        i = i + 1;
    }
    true
}

impl Product {
    /// The conjunction of two conjunctions: their constraints joined.
    pub fn concat_product(&self, rhs: &Product) -> (r: Product)
        ensures
            r._terms@ == self._terms@ + rhs._terms@,
    {
        let mut new_terms: Vec<Term> = Vec::new();
        let na = self._terms.len();
        let mut i: usize = 0;
        while i < na
            invariant
                na == self._terms@.len(),
                0 <= i <= na,
                new_terms@ == self._terms@.take(i as int),
            decreases na - i,
        {
            new_terms.push(self._terms[i]);
            i = i + 1;
        }
        proof {
            assert(new_terms@ =~= self._terms@);
        }
        let nb = rhs._terms.len();
        let mut j: usize = 0;
        while j < nb
            invariant
                nb == rhs._terms@.len(),
                0 <= j <= nb,
                new_terms@ == self._terms@ + rhs._terms@.take(j as int),
            decreases nb - j,
        {
            new_terms.push(rhs._terms[j]);
            proof {
                assert(new_terms@ =~= self._terms@ + rhs._terms@.take(j as int + 1));
            }
            j = j + 1;
        }
        proof {
            assert(new_terms@ =~= self._terms@ + rhs._terms@);
        }
        Product::new(new_terms)
    }
}

impl core::ops::Mul<Term> for Term {
    type Output = Product;

    fn mul(self, rhs: Term) -> (r: Product) {
        let mut terms: Vec<Term> = Vec::new();
        terms.push(self);
        terms.push(rhs);
        Product::new(terms)
    }
}

impl vstd::std_specs::ops::MulSpecImpl<Term> for Term {
    open spec fn obeys_mul_spec() -> bool {
        false
    }

    open spec fn mul_req(self, rhs: Term) -> bool {
        true
    }

    open spec fn mul_spec(self, rhs: Term) -> Product {
        vstd::pervasive::arbitrary()
    }
}

impl core::ops::Mul<Product> for Term {
    type Output = Product;

    fn mul(self, rhs: Product) -> (r: Product) {
        self._to_product().concat_product(&rhs)
    }
}

impl vstd::std_specs::ops::MulSpecImpl<Product> for Term {
    open spec fn obeys_mul_spec() -> bool {
        false
    }

    open spec fn mul_req(self, rhs: Product) -> bool {
        true
    }

    open spec fn mul_spec(self, rhs: Product) -> Product {
        vstd::pervasive::arbitrary()
    }
}

impl core::ops::Mul<Expression> for Term {
    type Output = Expression;

    fn mul(self, rhs: Expression) -> (r: Expression) {
        self.to_expression().multiply_expression(&rhs)
    }
}

impl vstd::std_specs::ops::MulSpecImpl<Expression> for Term {
    open spec fn obeys_mul_spec() -> bool {
        false
    }

    open spec fn mul_req(self, rhs: Expression) -> bool {
        true
    }

    open spec fn mul_spec(self, rhs: Expression) -> Expression {
        vstd::pervasive::arbitrary()
    }
}

impl core::ops::Mul<Product> for Product {
    type Output = Product;

    fn mul(self, rhs: Product) -> (r: Product) {
        self.concat_product(&rhs)
    }
}

impl vstd::std_specs::ops::MulSpecImpl<Product> for Product {
    open spec fn obeys_mul_spec() -> bool {
        false
    }

    open spec fn mul_req(self, rhs: Product) -> bool {
        true
    }

    open spec fn mul_spec(self, rhs: Product) -> Product {
        vstd::pervasive::arbitrary()
    }
}

impl core::ops::Mul<Term> for Product {
    type Output = Product;

    fn mul(self, rhs: Term) -> (r: Product) {
        self.concat_product(&rhs._to_product())
    }
}

impl vstd::std_specs::ops::MulSpecImpl<Term> for Product {
    open spec fn obeys_mul_spec() -> bool {
        false
    }

    open spec fn mul_req(self, rhs: Term) -> bool {
        true
    }

    open spec fn mul_spec(self, rhs: Term) -> Product {
        vstd::pervasive::arbitrary()
    }
}

impl core::ops::Mul<Expression> for Product {
    type Output = Expression;

    fn mul(self, rhs: Expression) -> (r: Expression) {
        self.to_expression().multiply_expression(&rhs)
    }
}

impl vstd::std_specs::ops::MulSpecImpl<Expression> for Product {
    open spec fn obeys_mul_spec() -> bool {
        false
    }

    open spec fn mul_req(self, rhs: Expression) -> bool {
        true
    }

    open spec fn mul_spec(self, rhs: Expression) -> Expression {
        vstd::pervasive::arbitrary()
    }
}

impl core::ops::Mul<Expression> for Expression {
    type Output = Expression;

    fn mul(self, rhs: Expression) -> (r: Expression) {
        self.multiply_expression(&rhs)
    }
}

impl vstd::std_specs::ops::MulSpecImpl<Expression> for Expression {
    open spec fn obeys_mul_spec() -> bool {
        false
    }

    open spec fn mul_req(self, rhs: Expression) -> bool {
        true
    }

    open spec fn mul_spec(self, rhs: Expression) -> Expression {
        vstd::pervasive::arbitrary()
    }
}

impl core::ops::Mul<Term> for Expression {
    type Output = Expression;

    fn mul(self, rhs: Term) -> (r: Expression) {
        self.multiply_expression(&rhs.to_expression())
    }
}

impl vstd::std_specs::ops::MulSpecImpl<Term> for Expression {
    open spec fn obeys_mul_spec() -> bool {
        false
    }

    open spec fn mul_req(self, rhs: Term) -> bool {
        true
    }

    open spec fn mul_spec(self, rhs: Term) -> Expression {
        vstd::pervasive::arbitrary()
    }
}

impl core::ops::Mul<Product> for Expression {
    type Output = Expression;

    fn mul(self, rhs: Product) -> (r: Expression) {
        self.multiply_expression(&rhs.to_expression())
    }
}

impl vstd::std_specs::ops::MulSpecImpl<Product> for Expression {
    open spec fn obeys_mul_spec() -> bool {
        false
    }

    open spec fn mul_req(self, rhs: Product) -> bool {
        true
    }

    open spec fn mul_spec(self, rhs: Product) -> Expression {
        vstd::pervasive::arbitrary()
    }
}

impl core::ops::BitOr<Term> for Term {
    type Output = Expression;

    fn bitor(self, rhs: Term) -> (r: Expression) {
        self.to_expression().or_expression(&rhs.to_expression())
    }
}

impl vstd::std_specs::ops::BitOrSpecImpl<Term> for Term {
    open spec fn obeys_bitor_spec() -> bool {
        false
    }

    open spec fn bitor_req(self, rhs: Term) -> bool {
        true
    }

    open spec fn bitor_spec(self, rhs: Term) -> Expression {
        vstd::pervasive::arbitrary()
    }
}

impl core::ops::BitOr<Product> for Term {
    type Output = Expression;

    fn bitor(self, rhs: Product) -> (r: Expression) {
        self.to_expression().or_expression(&rhs.to_expression())
    }
}

impl vstd::std_specs::ops::BitOrSpecImpl<Product> for Term {
    open spec fn obeys_bitor_spec() -> bool {
        false
    }

    open spec fn bitor_req(self, rhs: Product) -> bool {
        true
    }

    open spec fn bitor_spec(self, rhs: Product) -> Expression {
        vstd::pervasive::arbitrary()
    }
}

impl core::ops::BitOr<Expression> for Term {
    type Output = Expression;

    fn bitor(self, rhs: Expression) -> (r: Expression) {
        self.to_expression().or_expression(&rhs)
    }
}

impl vstd::std_specs::ops::BitOrSpecImpl<Expression> for Term {
    open spec fn obeys_bitor_spec() -> bool {
        false
    }

    open spec fn bitor_req(self, rhs: Expression) -> bool {
        true
    }

    open spec fn bitor_spec(self, rhs: Expression) -> Expression {
        vstd::pervasive::arbitrary()
    }
}

impl core::ops::BitOr<Product> for Product {
    type Output = Expression;

    fn bitor(self, rhs: Product) -> (r: Expression) {
        self.to_expression().or_expression(&rhs.to_expression())
    }
}

impl vstd::std_specs::ops::BitOrSpecImpl<Product> for Product {
    open spec fn obeys_bitor_spec() -> bool {
        false
    }

    open spec fn bitor_req(self, rhs: Product) -> bool {
        true
    }

    open spec fn bitor_spec(self, rhs: Product) -> Expression {
        vstd::pervasive::arbitrary()
    }
}

impl core::ops::BitOr<Term> for Product {
    type Output = Expression;

    fn bitor(self, rhs: Term) -> (r: Expression) {
        self.to_expression().or_expression(&rhs.to_expression())
    }
}

impl vstd::std_specs::ops::BitOrSpecImpl<Term> for Product {
    open spec fn obeys_bitor_spec() -> bool {
        false
    }

    open spec fn bitor_req(self, rhs: Term) -> bool {
        true
    }

    open spec fn bitor_spec(self, rhs: Term) -> Expression {
        vstd::pervasive::arbitrary()
    }
}

impl core::ops::BitOr<Expression> for Product {
    type Output = Expression;

    fn bitor(self, rhs: Expression) -> (r: Expression) {
        self.to_expression().or_expression(&rhs)
    }
}

impl vstd::std_specs::ops::BitOrSpecImpl<Expression> for Product {
    open spec fn obeys_bitor_spec() -> bool {
        false
    }

    open spec fn bitor_req(self, rhs: Expression) -> bool {
        true
    }

    open spec fn bitor_spec(self, rhs: Expression) -> Expression {
        vstd::pervasive::arbitrary()
    }
}

impl core::ops::BitOr<Expression> for Expression {
    type Output = Expression;

    fn bitor(self, rhs: Expression) -> (r: Expression) {
        self.or_expression(&rhs)
    }
}

impl vstd::std_specs::ops::BitOrSpecImpl<Expression> for Expression {
    open spec fn obeys_bitor_spec() -> bool {
        false
    }

    open spec fn bitor_req(self, rhs: Expression) -> bool {
        true
    }

    open spec fn bitor_spec(self, rhs: Expression) -> Expression {
        vstd::pervasive::arbitrary()
    }
}

impl core::ops::BitOr<Term> for Expression {
    type Output = Expression;

    fn bitor(self, rhs: Term) -> (r: Expression) {
        self.or_expression(&rhs.to_expression())
    }
}

impl vstd::std_specs::ops::BitOrSpecImpl<Term> for Expression {
    open spec fn obeys_bitor_spec() -> bool {
        false
    }

    open spec fn bitor_req(self, rhs: Term) -> bool {
        true
    }

    open spec fn bitor_spec(self, rhs: Term) -> Expression {
        vstd::pervasive::arbitrary()
    }
}

impl core::ops::BitOr<Product> for Expression {
    type Output = Expression;

    fn bitor(self, rhs: Product) -> (r: Expression) {
        self.or_expression(&rhs.to_expression())
    }
}

impl vstd::std_specs::ops::BitOrSpecImpl<Product> for Expression {
    open spec fn obeys_bitor_spec() -> bool {
        false
    }

    open spec fn bitor_req(self, rhs: Product) -> bool {
        true
    }

    open spec fn bitor_spec(self, rhs: Product) -> Expression {
        vstd::pervasive::arbitrary()
    }
}

} // verus!
