//! The shopping cart: its lines, the actions that change it, and its totals.

use vstd::prelude::*;

use crate::shared::Product;

verus! {

/// One product in the cart, with the name, price and image it had when added.
#[derive(Debug, Clone, PartialEq)]
pub struct CartLine {
    pub product_id: String,
    pub name: String,
    pub price: i64,
    pub image_url: String,
    pub quantity: i64,
}

/// The mathematical content of a [`CartLine`].
pub struct CartLineView {
    pub product_id: Seq<char>,
    pub name: Seq<char>,
    pub price: i64,
    pub image_url: Seq<char>,
    pub quantity: i64,
}

impl View for CartLine {
    type V = CartLineView;

    open spec fn view(&self) -> CartLineView {
        CartLineView {
            product_id: self.product_id@,
            name: self.name@,
            price: self.price,
            image_url: self.image_url@,
            quantity: self.quantity,
        }
    }
}

impl CartLine {
    /// A copy of the line.
    pub fn duplicate(&self) -> (r: CartLine)
        ensures
            r@ == self@,
    {
        CartLine {
            product_id: self.product_id.clone(),
            name: self.name.clone(),
            price: self.price,
            image_url: self.image_url.clone(),
            quantity: self.quantity,
        }
    }
}

/// The views of a list of cart lines.
pub open spec fn line_views(lines: Seq<CartLine>) -> Seq<CartLineView> {
    lines.map_values(|l: CartLine| l@)
}

/// The contents of the cart.
#[derive(Debug, Clone, PartialEq)]
pub struct CartState {
    pub lines: Vec<CartLine>,
}

impl Default for CartState {
    fn default() -> (r: CartState)
        ensures
            r.lines@.len() == 0,
    {
        CartState { lines: Vec::new() }
    }
}

/// A change to the cart.
pub enum CartAction {
    /// Add a quantity of a product: raises the quantity of its line, or adds a
    /// line for it.
    Add(Product, i64),
    /// Set the quantity of the product's line; zero or less removes it.
    SetQuantity(String, i64),
    /// Remove the product's lines.
    Remove(String),
    /// Empty the cart.
    Clear,
    /// Replace the whole cart, as when it is read back from storage.
    Load(CartState),
}

/// The mathematical content of a [`CartAction`].
pub enum CartActionView {
    Add { product_id: Seq<char>, name: Seq<char>, price: i64, image_url: Seq<char>, quantity: i64 },
    SetQuantity(Seq<char>, i64),
    Remove(Seq<char>),
    Clear,
    Load(Seq<CartLineView>),
}

impl View for CartAction {
    type V = CartActionView;

    open spec fn view(&self) -> CartActionView {
        match self {
            CartAction::Add(p, q) => CartActionView::Add {
                product_id: p.id@,
                name: p.name@,
                price: p.price,
                image_url: p.image_url@,
                quantity: *q,
            },
            CartAction::SetQuantity(id, q) => CartActionView::SetQuantity(id@, *q),
            CartAction::Remove(id) => CartActionView::Remove(id@),
            CartAction::Clear => CartActionView::Clear,
            CartAction::Load(s) => CartActionView::Load(line_views(s.lines@)),
        }
    }
}

/// The index of the first line for `id`, or -1 when there is none.
pub open spec fn first_index_of(ls: Seq<CartLineView>, id: Seq<char>) -> int
    decreases ls.len(),
{
    if ls.len() == 0 {
        -1
    } else if ls[0].product_id == id {
        0
    } else {
        let r = first_index_of(ls.drop_first(), id);
        if r < 0 {
            -1
        } else {
            r + 1
        }
    }
}

/// `ls` without the lines for `id`, in order.
pub open spec fn lines_without(ls: Seq<CartLineView>, id: Seq<char>) -> Seq<CartLineView>
    decreases ls.len(),
{
    if ls.len() == 0 {
        ls
    } else {
        let r = lines_without(ls.drop_last(), id);
        if ls.last().product_id == id {
            r
        } else {
            r.push(ls.last())
        }
    }
}

/// `l` with another quantity.
pub open spec fn with_quantity(l: CartLineView, quantity: i64) -> CartLineView {
    CartLineView { quantity, ..l }
}

/// Whether an action can be applied without overflowing a quantity: adding
/// to an existing line must keep its quantity within `i64`.
pub open spec fn action_is_defined(ls: Seq<CartLineView>, a: CartActionView) -> bool {
    match a {
        CartActionView::Add { product_id, quantity, .. } => {
            let i = first_index_of(ls, product_id);
            i >= 0 ==> i64::MIN <= ls[i].quantity + quantity <= i64::MAX
        },
        _ => true,
    }
}

/// The cart lines after an action.
pub open spec fn reduce_lines(ls: Seq<CartLineView>, a: CartActionView) -> Seq<CartLineView> {
    match a {
        CartActionView::Add { product_id, name, price, image_url, quantity } => {
            let i = first_index_of(ls, product_id);
            if i >= 0 {
                ls.update(i, with_quantity(ls[i], (ls[i].quantity + quantity) as i64))
            } else {
                ls.push(CartLineView { product_id, name, price, image_url, quantity })
            }
        },
        CartActionView::SetQuantity(id, quantity) => {
            if quantity <= 0 {
                lines_without(ls, id)
            } else {
                let i = first_index_of(ls, id);
                if i >= 0 {
                    ls.update(i, with_quantity(ls[i], quantity))
                } else {
                    ls
                }
            }
        },
        CartActionView::Remove(id) => lines_without(ls, id),
        CartActionView::Clear => Seq::empty(),
        CartActionView::Load(s) => s,
    }
}

/// The sum of price times quantity over the lines.
pub open spec fn lines_total(ls: Seq<CartLineView>) -> int
    decreases ls.len(),
{
    if ls.len() == 0 {
        0
    } else {
        lines_total(ls.drop_last()) + ls.last().price * ls.last().quantity
    }
}

/// The sum of the quantities over the lines.
pub open spec fn lines_count(ls: Seq<CartLineView>) -> int
    decreases ls.len(),
{
    if ls.len() == 0 {
        0
    } else {
        lines_count(ls.drop_last()) + ls.last().quantity
    }
}

/// Whether a value lies in the range of `i64`.
pub open spec fn in_i64(v: int) -> bool {
    i64::MIN <= v <= i64::MAX
}

/// Whether summing price times quantity line by line stays within `i64`:
/// every product and every running sum.
pub open spec fn total_fits(ls: Seq<CartLineView>) -> bool
    decreases ls.len(),
{
    ls.len() == 0 || (total_fits(ls.drop_last()) && in_i64(ls.last().price * ls.last().quantity)
        && in_i64(lines_total(ls)))
}

/// Whether summing the quantities line by line stays within `i64`.
pub open spec fn count_fits(ls: Seq<CartLineView>) -> bool
    decreases ls.len(),
{
    ls.len() == 0 || (count_fits(ls.drop_last()) && in_i64(lines_count(ls)))
}

proof fn lemma_first_index(ls: Seq<CartLineView>, id: Seq<char>, i: int)
    requires
        0 <= i <= ls.len(),
        forall|j: int| 0 <= j < i ==> (#[trigger] ls[j]).product_id != id,
        i == ls.len() || ls[i].product_id == id,
    ensures
        first_index_of(ls, id) == (if i == ls.len() {
            -1
        } else {
            i
        }),
    decreases ls.len(),
{
    if ls.len() > 0 && i > 0 {
        let rest = ls.drop_first();
        assert forall|j: int| 0 <= j < i - 1 implies (#[trigger] rest[j]).product_id != id by {
            assert(rest[j] == ls[j + 1]);
        }
        if i < ls.len() {
            assert(rest[i - 1] == ls[i]);
        }
        lemma_first_index(rest, id, i - 1);
    }
}

/// Finds the first line for `id`.
fn find_line(lines: &Vec<CartLine>, id: &String) -> (r: Option<usize>)
    ensures
        match r {
            Some(i) => i < lines@.len() && first_index_of(line_views(lines@), id@) == i,
            None => first_index_of(line_views(lines@), id@) == -1,
        },
{
    let mut i: usize = 0;
    while i < lines.len()
        invariant
            i <= lines@.len(),
            forall|j: int| 0 <= j < i ==> (#[trigger] line_views(lines@)[j]).product_id != id@,
        decreases lines.len() - i,
    {
        if lines[i].product_id == *id {
            proof {
                lemma_first_index(line_views(lines@), id@, i as int);
            }
            return Some(i);
        }
        i = i + 1;
    }
    proof {
        lemma_first_index(line_views(lines@), id@, i as int);
    }
    None
}

/// Copies the lines that are not for `id`, in order.
fn copy_without(lines: &Vec<CartLine>, id: &String) -> (r: Vec<CartLine>)
    ensures
        line_views(r@) == lines_without(line_views(lines@), id@),
{
    let mut out: Vec<CartLine> = Vec::new();
    let mut i: usize = 0;
    while i < lines.len()
        invariant
            i <= lines@.len(),
            line_views(out@) == lines_without(line_views(lines@).take(i as int), id@),
        decreases lines.len() - i,
    {
        let ghost prefix = line_views(lines@).take(i as int);
        let ghost next = line_views(lines@).take(i + 1);
        assert(next.drop_last() =~= prefix);
        assert(next.last() == lines@[i as int]@);
        if lines[i].product_id != *id {
            let l = lines[i].duplicate();
            let ghost before = out@;
            out.push(l);
            assert(line_views(out@) =~= line_views(before).push(l@));
        }
        i = i + 1;
    }
    assert(line_views(lines@).take(lines@.len() as int) =~= line_views(lines@));
    out
}

/// Copies all the lines.
fn copy_lines(lines: &Vec<CartLine>) -> (r: Vec<CartLine>)
    ensures
        line_views(r@) == line_views(lines@),
{
    let mut out: Vec<CartLine> = Vec::new();
    let mut i: usize = 0;
    while i < lines.len()
        invariant
            i <= lines@.len(),
            line_views(out@) == line_views(lines@).take(i as int),
        decreases lines.len() - i,
    {
        let l = lines[i].duplicate();
        let ghost before = out@;
        out.push(l);
        assert(line_views(out@) =~= line_views(before).push(l@));
        assert(line_views(lines@).take(i + 1) =~= line_views(lines@).take(i as int).push(
            lines@[i as int]@,
        ));
        i = i + 1;
    }
    assert(line_views(lines@).take(lines@.len() as int) =~= line_views(lines@));
    out
}

/// Replaces the quantity of line `i`.
fn set_line_quantity(lines: &mut Vec<CartLine>, i: usize, quantity: i64)
    requires
        i < old(lines)@.len(),
    ensures
        line_views(final(lines)@) == line_views(old(lines)@).update(
            i as int,
            with_quantity(line_views(old(lines)@)[i as int], quantity),
        ),
{
    let old_line = lines[i].duplicate();
    let line = CartLine { quantity, ..old_line };
    lines.set(i, line);
    assert(line_views(lines@) =~= line_views(old(lines)@).update(
        i as int,
        with_quantity(line_views(old(lines)@)[i as int], quantity),
    ));
}

impl CartState {
    /// The lines of the cart as values.
    pub open spec fn line_seq(&self) -> Seq<CartLineView> {
        line_views(self.lines@)
    }

    /// The cart after an action: [`reduce_lines`] states what each action
    /// does.
    pub fn reduce(&self, action: CartAction) -> (r: CartState)
        requires
            action_is_defined(self.line_seq(), action@),
        ensures
            r.line_seq() == reduce_lines(self.line_seq(), action@),
    {
        match action {
            CartAction::Load(state) => state,
            CartAction::Add(product, qty) => {
                let mut lines = copy_lines(&self.lines);
                match find_line(&lines, &product.id) {
                    Some(i) => {
                        let q = lines[i].quantity + qty;
                        set_line_quantity(&mut lines, i, q);
                    },
                    None => {
                        let line = CartLine {
                            product_id: product.id,
                            name: product.name,
                            price: product.price,
                            image_url: product.image_url,
                            quantity: qty,
                        };
                        let ghost before = lines@;
                        lines.push(line);
                        assert(line_views(lines@) =~= line_views(before).push(line@));
                    },
                }
                CartState { lines }
            },
            CartAction::SetQuantity(id, qty) => {
                if qty <= 0 {
                    CartState { lines: copy_without(&self.lines, &id) }
                } else {
                    let mut lines = copy_lines(&self.lines);
                    match find_line(&lines, &id) {
                        Some(i) => {
                            set_line_quantity(&mut lines, i, qty);
                        },
                        None => {},
                    }
                    CartState { lines }
                }
            },
            CartAction::Remove(id) => CartState { lines: copy_without(&self.lines, &id) },
            CartAction::Clear => {
                let lines: Vec<CartLine> = Vec::new();
                assert(line_views(lines@) =~= Seq::<CartLineView>::empty());
                CartState { lines }
            },
        }
    }

    /// Price times quantity summed over the lines, or `None` when a product or
    /// a running sum leaves the range of `i64`.
    pub fn checked_total(&self) -> (r: Option<i64>)
        ensures
            r is Some <==> total_fits(self.line_seq()),
            r matches Some(t) ==> t == lines_total(self.line_seq()),
    {
        let ghost ls = self.line_seq();
        let mut acc: i64 = 0;
        let mut i: usize = 0;
        while i < self.lines.len()
            invariant
                i <= self.lines@.len(),
                ls == self.line_seq(),
                total_fits(ls.take(i as int)),
                acc == lines_total(ls.take(i as int)),
            decreases self.lines.len() - i,
        {
            let ghost next = ls.take(i + 1);
            assert(next.drop_last() =~= ls.take(i as int));
            assert(next.last() == self.lines@[i as int]@);
            let line = &self.lines[i];
            match line.price.checked_mul(line.quantity) {
                Some(p) => match acc.checked_add(p) {
                    Some(s) => {
                        acc = s;
                    },
                    None => {
                        proof {
                            if total_fits(ls) {
                                lemma_total_fits_prefix(ls, i + 1);
                            }
                        }
                        return None;
                    },
                },
                None => {
                    proof {
                        if total_fits(ls) {
                            lemma_total_fits_prefix(ls, i + 1);
                        }
                    }
                    return None;
                },
            }
            i = i + 1;
        }
        assert(ls.take(self.lines@.len() as int) =~= ls);
        Some(acc)
    }

    /// Price times quantity summed over the lines.
    pub fn total(&self) -> (t: i64)
        requires
            total_fits(self.line_seq()),
        ensures
            t == lines_total(self.line_seq()),
    {
        match self.checked_total() {
            Some(t) => t,
            None => 0,
        }
    }

    /// The quantities summed over the lines, or `None` when a running sum
    /// leaves the range of `i64`.
    pub fn checked_item_count(&self) -> (r: Option<i64>)
        ensures
            r is Some <==> count_fits(self.line_seq()),
            r matches Some(c) ==> c == lines_count(self.line_seq()),
    {
        let ghost ls = self.line_seq();
        let mut acc: i64 = 0;
        let mut i: usize = 0;
        while i < self.lines.len()
            invariant
                i <= self.lines@.len(),
                ls == self.line_seq(),
                count_fits(ls.take(i as int)),
                acc == lines_count(ls.take(i as int)),
            decreases self.lines.len() - i,
        {
            let ghost next = ls.take(i + 1);
            assert(next.drop_last() =~= ls.take(i as int));
            assert(next.last() == self.lines@[i as int]@);
            match acc.checked_add(self.lines[i].quantity) {
                Some(s) => {
                    acc = s;
                },
                None => {
                    proof {
                        if count_fits(ls) {
                            lemma_count_fits_prefix(ls, i + 1);
                        }
                    }
                    return None;
                },
            }
            i = i + 1;
        }
        assert(ls.take(self.lines@.len() as int) =~= ls);
        Some(acc)
    }

    /// The quantities summed over the lines.
    pub fn item_count(&self) -> (c: i64)
        requires
            count_fits(self.line_seq()),
        ensures
            c == lines_count(self.line_seq()),
    {
        match self.checked_item_count() {
            Some(c) => c,
            None => 0,
        }
    }
}

proof fn lemma_total_fits_prefix(ls: Seq<CartLineView>, k: int)
    requires
        0 <= k <= ls.len(),
        total_fits(ls),
    ensures
        total_fits(ls.take(k)),
    decreases ls.len() - k,
{
    if k < ls.len() {
        lemma_total_fits_prefix(ls, k + 1);
        assert(ls.take(k + 1).drop_last() =~= ls.take(k));
    } else {
        assert(ls.take(k) =~= ls);
    }
}

proof fn lemma_count_fits_prefix(ls: Seq<CartLineView>, k: int)
    requires
        0 <= k <= ls.len(),
        count_fits(ls),
    ensures
        count_fits(ls.take(k)),
    decreases ls.len() - k,
{
    if k < ls.len() {
        lemma_count_fits_prefix(ls, k + 1);
        assert(ls.take(k + 1).drop_last() =~= ls.take(k));
    } else {
        assert(ls.take(k) =~= ls);
    }
}

// ---------------------------------------------------------------------------
// Laws
// ---------------------------------------------------------------------------

/// Whether no product has two lines.
pub open spec fn ids_unique(ls: Seq<CartLineView>) -> bool {
    forall|i: int, j: int|
        0 <= i < j < ls.len() ==> (#[trigger] ls[i]).product_id != (#[trigger] ls[j]).product_id
}

proof fn lemma_first_index_none(ls: Seq<CartLineView>, id: Seq<char>)
    ensures
        first_index_of(ls, id) < 0 <==> forall|j: int|
            0 <= j < ls.len() ==> (#[trigger] ls[j]).product_id != id,
        first_index_of(ls, id) >= 0 ==> first_index_of(ls, id) < ls.len() && ls[first_index_of(
            ls,
            id,
        )].product_id == id,
    decreases ls.len(),
{
    if ls.len() > 0 && ls[0].product_id != id {
        let rest = ls.drop_first();
        lemma_first_index_none(rest, id);
        assert forall|j: int| 1 <= j < ls.len() implies ls[j] == rest[j - 1] by {}
        if first_index_of(ls, id) < 0 {
            assert forall|j: int| 0 <= j < ls.len() implies (#[trigger] ls[j]).product_id
                != id by {
                if j > 0 {
                    assert(ls[j] == rest[j - 1]);
                }
            }
        }
        if forall|j: int| 0 <= j < ls.len() ==> (#[trigger] ls[j]).product_id != id {
            assert forall|j: int| 0 <= j < rest.len() implies (#[trigger] rest[j]).product_id
                != id by {
                assert(rest[j] == ls[j + 1]);
            }
        }
    }
}

proof fn lemma_without_facts(ls: Seq<CartLineView>, id: Seq<char>)
    ensures
        forall|i: int|
            0 <= i < lines_without(ls, id).len() ==> (#[trigger] lines_without(ls, id)[i]).product_id
                != id,
        forall|i: int|
            0 <= i < lines_without(ls, id).len() ==> exists|j: int|
                0 <= j < ls.len() && ls[j] == #[trigger] lines_without(ls, id)[i],
        ids_unique(ls) ==> ids_unique(lines_without(ls, id)),
    decreases ls.len(),
{
    if ls.len() > 0 {
        let prev = ls.drop_last();
        lemma_without_facts(prev, id);
        let r = lines_without(prev, id);
        assert forall|i: int| 0 <= i < r.len() implies exists|j: int|
            0 <= j < ls.len() && ls[j] == #[trigger] r[i] by {
            let j = choose|j: int| 0 <= j < prev.len() && prev[j] == r[i];
            assert(ls[j] == prev[j]);
        }
        if ls.last().product_id != id {
            let out = r.push(ls.last());
            assert forall|i: int| 0 <= i < out.len() implies exists|j: int|
                0 <= j < ls.len() && ls[j] == #[trigger] out[i] by {
                if i < r.len() {
                    assert(out[i] == r[i]);
                } else {
                    assert(ls[ls.len() - 1] == out[i]);
                }
            }
            if ids_unique(ls) {
                assert(ids_unique(prev)) by {
                    assert forall|a: int, b: int| 0 <= a < b < prev.len() implies (
                    #[trigger] prev[a]).product_id != (#[trigger] prev[b]).product_id by {
                        assert(prev[a] == ls[a] && prev[b] == ls[b]);
                    }
                }
                assert forall|a: int, b: int| 0 <= a < b < out.len() implies (
                #[trigger] out[a]).product_id != (#[trigger] out[b]).product_id by {
                    if b < r.len() {
                        assert(out[a] == r[a] && out[b] == r[b]);
                    } else {
                        let j = choose|j: int| 0 <= j < prev.len() && prev[j] == r[a];
                        assert(ls[j] == prev[j]);
                        assert(out[a] == r[a]);
                        assert(out[b] == ls[ls.len() - 1]);
                    }
                }
            }
        }
    }
}

proof fn lemma_update_sums(ls: Seq<CartLineView>, i: int, q: i64)
    requires
        0 <= i < ls.len(),
    ensures
        lines_count(ls.update(i, with_quantity(ls[i], q))) == lines_count(ls) - ls[i].quantity + q,
        lines_total(ls.update(i, with_quantity(ls[i], q))) == lines_total(ls) - ls[i].price
            * ls[i].quantity + ls[i].price * q,
    decreases ls.len(),
{
    let u = ls.update(i, with_quantity(ls[i], q));
    if i == ls.len() - 1 {
        assert(u.drop_last() =~= ls.drop_last());
    } else {
        lemma_update_sums(ls.drop_last(), i, q);
        assert(u.drop_last() =~= ls.drop_last().update(i, with_quantity(ls[i], q)));
        assert(ls.drop_last()[i] == ls[i]);
    }
}

/// Clearing leaves an empty cart, with nothing to pay and no items.
pub proof fn law_clear_empties(ls: Seq<CartLineView>)
    ensures
        reduce_lines(ls, CartActionView::Clear).len() == 0,
        lines_total(reduce_lines(ls, CartActionView::Clear)) == 0,
        lines_count(reduce_lines(ls, CartActionView::Clear)) == 0,
{
}

/// Removing a product, or setting its quantity to zero or less, leaves no
/// line for it, and every remaining line was in the cart before.
pub proof fn law_remove_drops_product(ls: Seq<CartLineView>, id: Seq<char>, q: i64)
    requires
        q <= 0,
    ensures
        reduce_lines(ls, CartActionView::SetQuantity(id, q)) == reduce_lines(
            ls,
            CartActionView::Remove(id),
        ),
        forall|i: int|
            0 <= i < reduce_lines(ls, CartActionView::Remove(id)).len() ==> (
            #[trigger] reduce_lines(ls, CartActionView::Remove(id))[i]).product_id != id,
        forall|i: int|
            0 <= i < reduce_lines(ls, CartActionView::Remove(id)).len() ==> exists|j: int|
                0 <= j < ls.len() && ls[j] == #[trigger] reduce_lines(
                    ls,
                    CartActionView::Remove(id),
                )[i],
{
    lemma_without_facts(ls, id);
}

proof fn lemma_without_is_filter(ls: Seq<CartLineView>, id: Seq<char>)
    ensures
        lines_without(ls, id) == ls.filter(|l: CartLineView| l.product_id != id),
    decreases ls.len(),
{
    reveal(Seq::filter);
    if ls.len() > 0 {
        lemma_without_is_filter(ls.drop_last(), id);
    }
}

/// Removing a product keeps every other line, in the order they were in: the
/// lines after the removal are exactly the lines of the cart whose product is
/// another one. Setting a quantity of zero or less does the same.
pub proof fn law_remove_keeps_other_lines(ls: Seq<CartLineView>, id: Seq<char>, q: i64)
    requires
        q <= 0,
    ensures
        reduce_lines(ls, CartActionView::Remove(id)) == ls.filter(
            |l: CartLineView| l.product_id != id,
        ),
        reduce_lines(ls, CartActionView::SetQuantity(id, q)) == ls.filter(
            |l: CartLineView| l.product_id != id,
        ),
        forall|j: int|
            0 <= j < ls.len() && (#[trigger] ls[j]).product_id != id ==> reduce_lines(
                ls,
                CartActionView::Remove(id),
            ).contains(ls[j]),
{
    lemma_without_is_filter(ls, id);
    let pred = |l: CartLineView| l.product_id != id;
    assert forall|j: int| 0 <= j < ls.len() && (#[trigger] ls[j]).product_id != id implies ls.filter(
        pred,
    ).contains(ls[j]) by {
        ls.lemma_filter_contains(pred, j);
    }
}

/// Adding `quantity` of a product raises the item count by `quantity`, and
/// the total by `quantity` times the price of its line: the price stored in
/// the cart when the product is already there, the product's price otherwise.
pub proof fn law_add_raises_totals(
    ls: Seq<CartLineView>,
    product_id: Seq<char>,
    name: Seq<char>,
    price: i64,
    image_url: Seq<char>,
    quantity: i64,
)
    requires
        action_is_defined(
            ls,
            CartActionView::Add { product_id, name, price, image_url, quantity },
        ),
    ensures
        ({
            let after = reduce_lines(
                ls,
                CartActionView::Add { product_id, name, price, image_url, quantity },
            );
            let i = first_index_of(ls, product_id);
            let unit = if i >= 0 {
                ls[i].price as int
            } else {
                price as int
            };
            &&& lines_count(after) == lines_count(ls) + quantity
            &&& lines_total(after) == lines_total(ls) + unit * quantity
        }),
{
    let i = first_index_of(ls, product_id);
    lemma_first_index_none(ls, product_id);
    if i >= 0 {
        let q0 = ls[i].quantity;
        let p = ls[i].price;
        lemma_update_sums(ls, i, (q0 + quantity) as i64);
        assert(p * (q0 + quantity) == p * q0 + p * quantity) by (nonlinear_arith);
    } else {
        let after = ls.push(CartLineView { product_id, name, price, image_url, quantity });
        assert(after.drop_last() =~= ls);
    }
}

/// Every action but loading keeps each product on at most one line.
pub proof fn law_actions_keep_products_distinct(ls: Seq<CartLineView>, a: CartActionView)
    requires
        ids_unique(ls),
        !(a is Load),
    ensures
        ids_unique(reduce_lines(ls, a)),
{
    match a {
        CartActionView::Add { product_id, name, price, image_url, quantity } => {
            lemma_first_index_none(ls, product_id);
            let r = reduce_lines(ls, a);
            if first_index_of(ls, product_id) >= 0 {
                let i = first_index_of(ls, product_id);
                assert forall|x: int, y: int| 0 <= x < y < r.len() implies (
                #[trigger] r[x]).product_id != (#[trigger] r[y]).product_id by {
                    assert(r[x].product_id == ls[x].product_id);
                    assert(r[y].product_id == ls[y].product_id);
                }
            } else {
                assert forall|x: int, y: int| 0 <= x < y < r.len() implies (
                #[trigger] r[x]).product_id != (#[trigger] r[y]).product_id by {
                    if y < ls.len() {
                        assert(r[x] == ls[x] && r[y] == ls[y]);
                    } else {
                        assert(r[x] == ls[x]);
                    }
                }
            }
        },
        CartActionView::SetQuantity(id, q) => {
            lemma_without_facts(ls, id);
            lemma_first_index_none(ls, id);
            let r = reduce_lines(ls, a);
            if q > 0 && first_index_of(ls, id) >= 0 {
                let i = first_index_of(ls, id);
                let u = ls.update(i, with_quantity(ls[i], q));
                assert(r == u);
                assert forall|x: int| 0 <= x < u.len() implies (#[trigger] u[x]).product_id
                    == ls[x].product_id by {
                    if x == i {
                        assert(u[x] == with_quantity(ls[i], q));
                    }
                }
                assert forall|x: int, y: int| 0 <= x < y < r.len() implies (
                #[trigger] r[x]).product_id != (#[trigger] r[y]).product_id by {
                    assert(r[x].product_id == ls[x].product_id);
                    assert(r[y].product_id == ls[y].product_id);
                }
            }
        },
        CartActionView::Remove(id) => {
            lemma_without_facts(ls, id);
        },
        _ => {},
    }
}

} // verus!
