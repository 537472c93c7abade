//! Normalization: a block with nested blocks becomes a flat list of fields and
//! methods, and every leaf receives the properties of the blocks around it.

use vstd::prelude::*;
use crate::model::{
    clone_arguments, clone_opt_value, clone_properties, lemma_block_view_inner, view_declarations,
    view_properties, Block, BlockView, Declaration, DeclarationView, Field, FieldView, Method,
    MethodView, Property, PropertyView,
};

verus! {

/// Views of a list of fields, in order.
pub open spec fn view_fields(v: Seq<Field>) -> Seq<FieldView> {
    v.map_values(|f: Field| f@)
}

/// Views of a list of methods, in order.
pub open spec fn view_methods(v: Seq<Method>) -> Seq<MethodView> {
    v.map_values(|m: Method| m@)
}

/// A leaf with `outer` put in front of its own properties. A block is left as
/// it is.
pub open spec fn leaf_under(d: DeclarationView, outer: Seq<PropertyView>) -> DeclarationView {
    match d {
        DeclarationView::Field(f) => DeclarationView::Field(
            FieldView { properties: outer + f.properties, ..f },
        ),
        DeclarationView::Method(m) => DeclarationView::Method(
            MethodView { properties: outer + m.properties, ..m },
        ),
        DeclarationView::Block(_) => d,
    }
}

/// The leaves that stand directly in `decls`, in order, each under `outer`.
pub open spec fn own_leaves(decls: Seq<DeclarationView>, outer: Seq<PropertyView>) -> Seq<
    DeclarationView,
>
    decreases decls.len(),
{
    if decls.len() == 0 {
        Seq::empty()
    } else if decls.last() is Block {
        own_leaves(decls.drop_last(), outer)
    } else {
        own_leaves(decls.drop_last(), outer).push(leaf_under(decls.last(), outer))
    }
}

/// The leaves of the blocks that stand in `decls`, block after block in
/// order, each block flattened under `outer`.
pub open spec fn nested_leaves(decls: Seq<DeclarationView>, outer: Seq<PropertyView>) -> Seq<
    DeclarationView,
>
    decreases decls,
{
    if decls.len() == 0 {
        Seq::empty()
    } else {
        let before = nested_leaves(decls.drop_last(), outer);
        match decls.last() {
            DeclarationView::Block(b) => before + flatten(b, outer),
            _ => before,
        }
    }
}

/// All leaves of `b`, flat. A leaf carries `upper`, then the properties of
/// each block around it from the outermost in, then its own. The direct leaves
/// of a block come before those of its nested blocks.
pub open spec fn flatten(b: BlockView, upper: Seq<PropertyView>) -> Seq<DeclarationView>
    decreases b,
{
    let outer = upper + b.properties;
    own_leaves(b.inner, outer) + nested_leaves(b.inner, outer)
}

/// The flat block that `b` normalizes to.
pub open spec fn normalized(b: BlockView) -> BlockView {
    BlockView { properties: Seq::empty(), inner: flatten(b, Seq::empty()) }
}

/// The fields among `decls`, in order.
pub open spec fn fields_of(decls: Seq<DeclarationView>) -> Seq<FieldView>
    decreases decls.len(),
{
    if decls.len() == 0 {
        Seq::empty()
    } else {
        match decls.last() {
            DeclarationView::Field(f) => fields_of(decls.drop_last()).push(f),
            _ => fields_of(decls.drop_last()),
        }
    }
}

/// The methods among `decls`, in order.
pub open spec fn methods_of(decls: Seq<DeclarationView>) -> Seq<MethodView>
    decreases decls.len(),
{
    if decls.len() == 0 {
        Seq::empty()
    } else {
        match decls.last() {
            DeclarationView::Method(m) => methods_of(decls.drop_last()).push(m),
            _ => methods_of(decls.drop_last()),
        }
    }
}

/// No entry of `decls` is a block.
pub open spec fn is_flat(decls: Seq<DeclarationView>) -> bool {
    forall|i: int| 0 <= i < decls.len() ==> !(#[trigger] decls[i] is Block)
}

/// Joins two property lists into a new one.
fn joined_properties(first: &Vec<Property>, second: &Vec<Property>) -> (all: Vec<Property>)
    ensures
        view_properties(all@) == view_properties(first@) + view_properties(second@),
{
    let mut all = clone_properties(first);
    let mut rest = clone_properties(second);
    all.append(&mut rest);
    assert(view_properties(all@) =~= view_properties(first@) + view_properties(second@));
    all
}

/// A block that waits to be flattened, and the properties handed down to it.
pub struct Waiting {
    pub block: BlockView,
    pub upper: Seq<PropertyView>,
}

/// The leaves of the blocks that wait, the block that was put last first.
pub open spec fn waiting_leaves(stack: Seq<Waiting>) -> Seq<DeclarationView>
    decreases stack.len(),
{
    if stack.len() == 0 {
        Seq::empty()
    } else {
        flatten(stack.last().block, stack.last().upper) + waiting_leaves(stack.drop_last())
    }
}

/// The leaves of the blocks that stand in `decls` at `k` or behind it, block
/// after block in order, each block flattened under `outer`.
pub open spec fn nested_leaves_from(
    decls: Seq<DeclarationView>,
    k: int,
    outer: Seq<PropertyView>,
) -> Seq<DeclarationView>
    decreases decls.len() - k,
{
    if 0 <= k < decls.len() {
        let first: Seq<DeclarationView> = match decls[k] {
            DeclarationView::Block(b) => flatten(b, outer),
            _ => Seq::empty(),
        };
        first + nested_leaves_from(decls, k + 1, outer)
    } else {
        Seq::empty()
    }
}

/// The number of blocks in `b`, itself included.
pub open spec fn block_count(b: BlockView) -> nat
    decreases b, 1int,
{
    1 + blocks_in(b.inner)
}

/// The number of blocks in `decls`, at any depth.
pub open spec fn blocks_in(decls: Seq<DeclarationView>) -> nat
    decreases decls, 0int,
{
    if decls.len() == 0 {
        0
    } else {
        blocks_in(decls.drop_last()) + match decls.last() {
            DeclarationView::Block(b) => block_count(b),
            _ => 0nat,
        }
    }
}

/// The number of blocks in `decls` at `k` or behind it, at any depth.
pub open spec fn blocks_from(decls: Seq<DeclarationView>, k: int) -> nat
    decreases decls.len() - k,
{
    if 0 <= k < decls.len() {
        blocks_from(decls, k + 1) + match decls[k] {
            DeclarationView::Block(b) => block_count(b),
            _ => 0nat,
        }
    } else {
        0
    }
}

/// The number of blocks that wait, at any depth.
pub open spec fn waiting_blocks(stack: Seq<Waiting>) -> nat
    decreases stack.len(),
{
    if stack.len() == 0 {
        0
    } else {
        block_count(stack.last().block) + waiting_blocks(stack.drop_last())
    }
}

/// The blocks of a list, counted and flattened from a position on, make up
/// with those before it the blocks of the whole list.
pub proof fn lemma_nested_from(decls: Seq<DeclarationView>, k: int, outer: Seq<PropertyView>)
    requires
        0 <= k <= decls.len(),
    ensures
        nested_leaves(decls.take(k), outer) + nested_leaves_from(decls, k, outer) == nested_leaves(
            decls,
            outer,
        ),
        blocks_in(decls.take(k)) + blocks_from(decls, k) == blocks_in(decls),
    decreases decls.len() - k,
{
    if k < decls.len() {
        lemma_nested_from(decls, k + 1, outer);
        assert(decls.take(k + 1).drop_last() =~= decls.take(k));
        assert(decls.take(k + 1).last() == decls[k]);
        let first: Seq<DeclarationView> = match decls[k] {
            DeclarationView::Block(b) => flatten(b, outer),
            _ => Seq::empty(),
        };
        assert(nested_leaves(decls.take(k + 1), outer) =~= nested_leaves(decls.take(k), outer)
            + first);
        assert(nested_leaves(decls.take(k), outer) + (first + nested_leaves_from(
            decls,
            k + 1,
            outer,
        )) =~= nested_leaves(decls.take(k), outer) + first + nested_leaves_from(
            decls,
            k + 1,
            outer,
        ));
    } else {
        assert(decls.take(k) =~= decls);
        assert(nested_leaves(decls, outer) + Seq::<DeclarationView>::empty() =~= nested_leaves(
            decls,
            outer,
        ));
    }
}

/// A block that waits, with the properties handed down to it.
pub struct Work<'a> {
    pub block: &'a Block,
    pub upper: Vec<Property>,
}

impl<'a> View for Work<'a> {
    type V = Waiting;

    open spec fn view(&self) -> Waiting {
        Waiting { block: self.block@, upper: view_properties(self.upper@) }
    }
}

/// Views of the blocks that wait, in order.
pub open spec fn view_work(stack: Seq<Work>) -> Seq<Waiting> {
    stack.map_values(|w: Work| w@)
}

/// Puts the blocks that stand directly in `block` on the stack, the last one
/// first, each with `outer` handed down to it.
fn push_nested<'a>(stack: &mut Vec<Work<'a>>, block: &'a Block, outer: &Vec<Property>)
    ensures
        waiting_leaves(view_work(final(stack)@)) == nested_leaves(
            block@.inner,
            view_properties(outer@),
        ) + waiting_leaves(view_work(old(stack)@)),
        waiting_blocks(view_work(final(stack)@)) == blocks_in(block@.inner) + waiting_blocks(
            view_work(old(stack)@),
        ),
{
    let ghost decls = block@.inner;
    let ghost above = view_properties(outer@);
    let ghost rest = view_work(stack@);
    proof {
        lemma_block_view_inner(*block);
        lemma_nested_from(decls, 0, above);
        assert(decls.take(0) =~= Seq::empty());
        assert(Seq::<DeclarationView>::empty() + waiting_leaves(rest) =~= waiting_leaves(rest));
    }
    let mut k: usize = block.inner.len();
    while k > 0
        invariant
            k <= block.inner.len(),
            decls == view_declarations(block.inner@),
            above == view_properties(outer@),
            waiting_leaves(view_work(stack@)) == nested_leaves_from(decls, k as int, above)
                + waiting_leaves(rest),
            waiting_blocks(view_work(stack@)) == blocks_from(decls, k as int) + waiting_blocks(
                rest,
            ),
        decreases k,
    {
        k -= 1;
        match &block.inner[k] {
            Declaration::Block(b) => {
                let ghost before = view_work(stack@);
                let work = Work { block: b, upper: clone_properties(outer) };
                stack.push(work);
                proof {
                    let after = view_work(stack@);
                    assert(after.drop_last() =~= before);
                    assert(after.last() == work@);
                    assert(flatten(b@, above) + (nested_leaves_from(decls, k + 1, above)
                        + waiting_leaves(rest)) =~= (flatten(b@, above) + nested_leaves_from(
                        decls,
                        k + 1,
                        above,
                    )) + waiting_leaves(rest));
                }
            },
            _ => {
                assert(Seq::<DeclarationView>::empty() + nested_leaves_from(decls, k + 1, above)
                    =~= nested_leaves_from(decls, k + 1, above));
            },
        }
    }
}

/// Adds the leaves that stand directly in `block` at the end of `flat`, each
/// under `outer`.
fn add_own_leaves(flat: &mut Vec<Declaration>, block: &Block, outer: &Vec<Property>)
    ensures
        view_declarations(final(flat)@) == view_declarations(old(flat)@) + own_leaves(
            block@.inner,
            view_properties(outer@),
        ),
{
    let ghost decls = block@.inner;
    let ghost above = view_properties(outer@);
    let ghost before = view_declarations(flat@);
    proof {
        lemma_block_view_inner(*block);
        assert(decls.take(0) =~= Seq::empty());
        assert(before + Seq::<DeclarationView>::empty() =~= before);
    }
    let mut i: usize = 0;
    while i < block.inner.len()
        invariant
            i <= block.inner.len(),
            decls == view_declarations(block.inner@),
            above == view_properties(outer@),
            view_declarations(flat@) == before + own_leaves(decls.take(i as int), above),
        decreases block.inner.len() - i,
    {
        proof {
            assert(decls.take(i + 1).drop_last() =~= decls.take(i as int));
        }
        let ghost so_far = view_declarations(flat@);
        match &block.inner[i] {
            Declaration::Field(f) => {
                let leaf = Field {
                    is_static: f.is_static,
                    properties: joined_properties(outer, &f.properties),
                    name: f.name.clone(),
                    typ: f.typ.clone(),
                    value: clone_opt_value(&f.value),
                };
                flat.push(Declaration::Field(leaf));
                assert(view_declarations(flat@) =~= so_far.push(leaf_under(decls[i as int], above)));
                assert(view_declarations(flat@) =~= before + own_leaves(decls.take(i + 1), above));
            },
            Declaration::Method(m) => {
                let leaf = Method {
                    is_static: m.is_static,
                    properties: joined_properties(outer, &m.properties),
                    name: m.name.clone(),
                    returns: m.returns.clone(),
                    arguments: clone_arguments(&m.arguments),
                };
                flat.push(Declaration::Method(leaf));
                assert(view_declarations(flat@) =~= so_far.push(leaf_under(decls[i as int], above)));
                assert(view_declarations(flat@) =~= before + own_leaves(decls.take(i + 1), above));
            },
            Declaration::Block(_) => {},
        }
        i += 1;
    }
    assert(decls.take(block.inner.len() as int) =~= decls);
}

impl Block {
    /// All leaves of the block, flat. The blocks that still wait to be
    /// flattened are kept on a stack, so that blocks nested at any depth are
    /// worked off one by one.
    fn normalize_decls(&self) -> (flat: Vec<Declaration>)
        ensures
            view_declarations(flat@) == flatten(self@, Seq::empty()),
    {
        let mut flat: Vec<Declaration> = Vec::new();
        let mut stack: Vec<Work> = Vec::new();
        let first = Work { block: self, upper: Vec::new() };
        stack.push(first);
        proof {
            let waiting = view_work(stack@);
            assert(view_properties(first.upper@) =~= Seq::empty());
            assert(waiting.last() == first@);
            assert(waiting.drop_last() =~= Seq::empty());
            assert(waiting_leaves(waiting.drop_last()) =~= Seq::empty());
            assert(view_declarations(flat@) =~= Seq::empty());
            assert(view_declarations(flat@) + waiting_leaves(waiting) =~= flatten(
                self@,
                Seq::empty(),
            ));
        }
        while stack.len() > 0
            invariant
                view_declarations(flat@) + waiting_leaves(view_work(stack@)) == flatten(
                    self@,
                    Seq::empty(),
                ),
            decreases waiting_blocks(view_work(stack@)),
        {
            let ghost waiting = view_work(stack@);
            let ghost done = view_declarations(flat@);
            match stack.pop() {
                Some(work) => {
                    let ghost rest = view_work(stack@);
                    let outer = joined_properties(&work.upper, &work.block.properties);
                    proof {
                        lemma_block_view_inner(*work.block);
                        assert(rest =~= waiting.drop_last());
                        assert(waiting.last() == work@);
                    }
                    add_own_leaves(&mut flat, work.block, &outer);
                    push_nested(&mut stack, work.block, &outer);
                    proof {
                        let above = view_properties(outer@);
                        let own = own_leaves(work.block@.inner, above);
                        let nested = nested_leaves(work.block@.inner, above);
                        assert((done + own) + (nested + waiting_leaves(rest)) =~= done + ((own
                            + nested) + waiting_leaves(rest)));
                    }
                },
                None => {},
            }
        }
        assert(view_declarations(flat@) + Seq::<DeclarationView>::empty() =~= view_declarations(
            flat@,
        ));
        flat
    }

    /// The block made flat: no properties of its own, every leaf of `self` in
    /// it with the properties of all blocks around it, and no nested block.
    pub fn normalize(&self) -> (flat: Block)
        ensures
            flat@ == normalized(self@),
    {
        let inner = self.normalize_decls();
        let flat = Block { properties: Vec::new(), inner };
        proof {
            lemma_block_view_inner(flat);
            assert(view_properties(flat.properties@) =~= Seq::empty());
        }
        flat
    }

    /// The fields of the block, nested ones included, in normalized order and
    /// with the properties that normalization gives them.
    pub fn fields(&mut self) -> (all: Vec<Field>)
        ensures
            view_fields(all@) == fields_of(flatten(old(self)@, Seq::empty())),
            *final(self) == *old(self),
    {
        let flat = self.normalize_decls();
        let ghost decls = view_declarations(flat@);
        let mut all: Vec<Field> = Vec::new();
        let mut i: usize = 0;
        while i < flat.len()
            invariant
                i <= flat.len(),
                decls == view_declarations(flat@),
                view_fields(all@) == fields_of(decls.take(i as int)),
            decreases flat.len() - i,
        {
            proof {
                assert(decls.take(i + 1).drop_last() == decls.take(i as int));
            }
            match &flat[i] {
                Declaration::Field(f) => {
                    all.push(f.clone());
                    assert(view_fields(all@) =~= fields_of(decls.take(i + 1)));
                },
                _ => {},
            }
            i += 1;
        }
        assert(decls.take(flat.len() as int) == decls);
        all
    }

    /// The methods of the block, nested ones included, in normalized order
    /// and with the properties that normalization gives them.
    pub fn methods(&mut self) -> (all: Vec<Method>)
        ensures
            view_methods(all@) == methods_of(flatten(old(self)@, Seq::empty())),
            *final(self) == *old(self),
    {
        let flat = self.normalize_decls();
        let ghost decls = view_declarations(flat@);
        let mut all: Vec<Method> = Vec::new();
        let mut i: usize = 0;
        while i < flat.len()
            invariant
                i <= flat.len(),
                decls == view_declarations(flat@),
                view_methods(all@) == methods_of(decls.take(i as int)),
            decreases flat.len() - i,
        {
            proof {
                assert(decls.take(i + 1).drop_last() == decls.take(i as int));
            }
            match &flat[i] {
                Declaration::Method(m) => {
                    all.push(m.clone());
                    assert(view_methods(all@) =~= methods_of(decls.take(i + 1)));
                },
                _ => {},
            }
            i += 1;
        }
        assert(decls.take(flat.len() as int) == decls);
        all
    }
}

/// The number of leaves in `decls`, at any depth.
pub open spec fn leaf_count(decls: Seq<DeclarationView>) -> nat
    decreases decls,
{
    if decls.len() == 0 {
        0
    } else {
        leaf_count(decls.drop_last()) + match decls.last() {
            DeclarationView::Block(b) => leaf_count(b.inner),
            _ => 1nat,
        }
    }
}

/// The properties of a leaf; none for a block.
pub open spec fn leaf_properties(d: DeclarationView) -> Seq<PropertyView> {
    match d {
        DeclarationView::Field(f) => f.properties,
        DeclarationView::Method(m) => m.properties,
        DeclarationView::Block(_) => Seq::empty(),
    }
}

/// `prefix` stands at the start of `s`.
pub open spec fn starts_with(s: Seq<PropertyView>, prefix: Seq<PropertyView>) -> bool {
    prefix.len() <= s.len() && s.subrange(0, prefix.len() as int) == prefix
}

/// The direct leaves of a list are leaves, one for each leaf entry.
pub proof fn lemma_own_leaves(decls: Seq<DeclarationView>, outer: Seq<PropertyView>)
    ensures
        is_flat(own_leaves(decls, outer)),
        forall|i: int|
            0 <= i < own_leaves(decls, outer).len() ==> starts_with(
                leaf_properties(#[trigger] own_leaves(decls, outer)[i]),
                outer,
            ),
    decreases decls.len(),
{
    if decls.len() > 0 {
        lemma_own_leaves(decls.drop_last(), outer);
        match decls.last() {
            DeclarationView::Field(f) => {
                assert((outer + f.properties).subrange(0, outer.len() as int) =~= outer);
            },
            DeclarationView::Method(m) => {
                assert((outer + m.properties).subrange(0, outer.len() as int) =~= outer);
            },
            DeclarationView::Block(_) => {},
        }
    }
}

/// A flattened block holds no block, and each of its leaves carries, first of
/// all, the properties handed down to the block and then the block's own.
pub proof fn lemma_flatten_leaves(b: BlockView, upper: Seq<PropertyView>)
    ensures
        is_flat(flatten(b, upper)),
        forall|i: int|
            0 <= i < flatten(b, upper).len() ==> starts_with(
                leaf_properties(#[trigger] flatten(b, upper)[i]),
                upper + b.properties,
            ),
    decreases b, 1nat,
{
    let outer = upper + b.properties;
    lemma_own_leaves(b.inner, outer);
    lemma_nested_leaves(b.inner, outer);
}

/// The leaves of nested blocks are leaves, each under `outer`.
pub proof fn lemma_nested_leaves(decls: Seq<DeclarationView>, outer: Seq<PropertyView>)
    ensures
        is_flat(nested_leaves(decls, outer)),
        forall|i: int|
            0 <= i < nested_leaves(decls, outer).len() ==> starts_with(
                leaf_properties(#[trigger] nested_leaves(decls, outer)[i]),
                outer,
            ),
    decreases decls, 0nat,
{
    if decls.len() > 0 {
        lemma_nested_leaves(decls.drop_last(), outer);
        match decls.last() {
            DeclarationView::Block(b) => {
                lemma_flatten_leaves(b, outer);
                let sub = flatten(b, outer);
                assert forall|i: int| 0 <= i < sub.len() implies starts_with(
                    leaf_properties(#[trigger] sub[i]),
                    outer,
                ) by {
                    let p = leaf_properties(sub[i]);
                    assert(starts_with(p, outer + b.properties));
                    assert(p.subrange(0, outer.len() as int) =~= (outer + b.properties).subrange(
                        0,
                        outer.len() as int,
                    ));
                    assert((outer + b.properties).subrange(0, outer.len() as int) =~= outer);
                }
            },
            _ => {},
        }
    }
}

/// Flattening visits every leaf exactly once, at any depth: the flat list is
/// as long as the block has leaves.
pub proof fn lemma_flatten_counts_leaves(b: BlockView, upper: Seq<PropertyView>)
    ensures
        flatten(b, upper).len() == leaf_count(b.inner),
    decreases b, 1nat,
{
    lemma_leaves_counted(b.inner, upper + b.properties);
}

/// The direct and the nested leaves of a list together are as many as the
/// list has leaves.
pub proof fn lemma_leaves_counted(decls: Seq<DeclarationView>, outer: Seq<PropertyView>)
    ensures
        own_leaves(decls, outer).len() + nested_leaves(decls, outer).len() == leaf_count(decls),
    decreases decls, 0nat,
{
    if decls.len() > 0 {
        lemma_leaves_counted(decls.drop_last(), outer);
        match decls.last() {
            DeclarationView::Block(b) => {
                lemma_flatten_counts_leaves(b, outer);
            },
            _ => {},
        }
    }
}

/// A list without blocks is its own list of direct leaves when nothing is
/// handed down, and has no nested leaves.
pub proof fn lemma_flat_list_is_fixed(decls: Seq<DeclarationView>)
    requires
        is_flat(decls),
    ensures
        own_leaves(decls, Seq::empty()) == decls,
        nested_leaves(decls, Seq::empty()) == Seq::<DeclarationView>::empty(),
    decreases decls.len(),
{
    if decls.len() > 0 {
        let front = decls.drop_last();
        assert(is_flat(front)) by {
            assert forall|i: int| 0 <= i < front.len() implies !(#[trigger] front[i] is Block) by {
                assert(front[i] == decls[i]);
            }
        }
        lemma_flat_list_is_fixed(front);
        let last = decls.last();
        assert(!(decls[decls.len() - 1] is Block));
        match last {
            DeclarationView::Field(f) => {
                assert(Seq::<PropertyView>::empty() + f.properties =~= f.properties);
            },
            DeclarationView::Method(m) => {
                assert(Seq::<PropertyView>::empty() + m.properties =~= m.properties);
            },
            DeclarationView::Block(_) => {},
        }
        assert(leaf_under(last, Seq::empty()) == last);
        assert(front.push(last) =~= decls);
    }
}

/// Normalizing is idempotent: a normalized block normalizes to itself.
pub proof fn lemma_normalize_idempotent(b: BlockView)
    ensures
        normalized(normalized(b)) == normalized(b),
{
    let flat = flatten(b, Seq::empty());
    lemma_flatten_leaves(b, Seq::empty());
    lemma_flat_list_is_fixed(flat);
    assert(Seq::<PropertyView>::empty() + Seq::<PropertyView>::empty() =~= Seq::<
        PropertyView,
    >::empty());
    assert(flatten(normalized(b), Seq::empty()) =~= flat);
}

/// In a flat list every entry is a field or a method.
pub proof fn lemma_flat_splits(decls: Seq<DeclarationView>)
    requires
        is_flat(decls),
    ensures
        fields_of(decls).len() + methods_of(decls).len() == decls.len(),
    decreases decls.len(),
{
    if decls.len() > 0 {
        let front = decls.drop_last();
        assert forall|i: int| 0 <= i < front.len() implies !(#[trigger] front[i] is Block) by {
            assert(front[i] == decls[i]);
        }
        lemma_flat_splits(front);
        assert(!(decls[decls.len() - 1] is Block));
    }
}

} // verus!
