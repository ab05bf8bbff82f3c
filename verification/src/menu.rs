use vstd::prelude::*;

use crate::entry::{
    lemma_entry_kind_view, CheckModel, EntryKind, EntryModel, ItemId, PopupMenu, SubMenuModel,
    TextModel,
};

verus! {

/// One step of building a native menu from a [`PopupMenu`].
///
/// A backend walks the steps in order: `BeginSub` opens a new native submenu
/// that receives the following steps up to the matching `EndSub`, which
/// attaches it to its parent under the label given at `BeginSub`.
pub enum MenuOp {
    /// A selectable entry. `slot` is its position in the plan's selection
    /// table; `check` is `Some(ticked)` for a checkbox entry.
    Item { slot: usize, text: String, check: Option<bool>, enabled: bool },
    /// The start of a submenu.
    BeginSub { text: String, enabled: bool },
    /// The end of the innermost open submenu.
    EndSub,
    /// A separator line.
    Separator,
}

/// What a [`MenuOp`] is.
pub enum OpModel {
    Item { slot: nat, text: Seq<char>, check: Option<bool>, enabled: bool },
    BeginSub { text: Seq<char>, enabled: bool },
    EndSub,
    Separator,
}

impl View for MenuOp {
    type V = OpModel;

    open spec fn view(&self) -> OpModel {
        match self {
            MenuOp::Item { slot, text, check, enabled } => OpModel::Item {
                slot: *slot as nat,
                text: text@,
                check: *check,
                enabled: *enabled,
            },
            MenuOp::BeginSub { text, enabled } => OpModel::BeginSub { text: text@, enabled: *enabled },
            MenuOp::EndSub => OpModel::EndSub,
            MenuOp::Separator => OpModel::Separator,
        }
    }
}

/// The steps for a native menu together with its selection table: the item
/// built from the step with slot `k` stands for `ids[k]`.
pub struct MenuPlan {
    pub ops: Vec<MenuOp>,
    pub ids: Vec<ItemId>,
}

/// The IDs of the selectable entries of one entry, in menu order.
pub open spec fn entry_ids(e: EntryModel) -> Seq<Seq<char>>
    decreases e,
{
    match e {
        EntryModel::Text(t) => seq![t.id],
        EntryModel::Check(c) => seq![c.id],
        EntryModel::Sub(s) => menu_ids(s.entries),
        EntryModel::Divider => Seq::empty(),
    }
}

/// The IDs of the selectable entries of a menu, depth first, in menu order.
pub open spec fn menu_ids(m: Seq<EntryModel>) -> Seq<Seq<char>>
    decreases m,
{
    if m.len() == 0 {
        Seq::empty()
    } else {
        menu_ids(m.subrange(0, m.len() - 1)) + entry_ids(m[m.len() - 1])
    }
}

/// The steps that build one entry whose first selectable item gets slot `base`.
pub open spec fn entry_ops(e: EntryModel, base: nat) -> Seq<OpModel>
    decreases e,
{
    match e {
        EntryModel::Text(t) => seq![
            OpModel::Item { slot: base, text: t.text, check: None, enabled: t.active },
        ],
        EntryModel::Check(c) => seq![
            OpModel::Item { slot: base, text: c.text, check: Some(c.ticked), enabled: c.active },
        ],
        EntryModel::Sub(s) => seq![OpModel::BeginSub { text: s.text, enabled: s.active }]
            + menu_ops(s.entries, base) + seq![OpModel::EndSub],
        EntryModel::Divider => seq![OpModel::Separator],
    }
}

/// The steps that build a menu whose first selectable item gets slot `base`.
pub open spec fn menu_ops(m: Seq<EntryModel>, base: nat) -> Seq<OpModel>
    decreases m,
{
    if m.len() == 0 {
        Seq::empty()
    } else {
        let prefix = m.subrange(0, m.len() - 1);
        menu_ops(prefix, base) + entry_ops(m[m.len() - 1], base + menu_ids(prefix).len())
    }
}

/// The models of a sequence of operations.
pub open spec fn ops_model(v: Seq<MenuOp>) -> Seq<OpModel> {
    v.map_values(|op: MenuOp| op@)
}

/// The views of a sequence of item IDs.
pub open spec fn ids_model(v: Seq<ItemId>) -> Seq<Seq<char>> {
    v.map_values(|id: ItemId| id@)
}

/// The slots of the item steps, in step order.
pub open spec fn item_slots(ops: Seq<OpModel>) -> Seq<nat>
    decreases ops.len(),
{
    if ops.len() == 0 {
        Seq::empty()
    } else {
        let rest = item_slots(ops.subrange(0, ops.len() - 1));
        match ops[ops.len() - 1] {
            OpModel::Item { slot, .. } => rest.push(slot),
            _ => rest,
        }
    }
}

/// The slots `base`, `base + 1`, ..., `base + n - 1`.
pub open spec fn slot_range(base: nat, n: nat) -> Seq<nat> {
    Seq::new(n, |i: int| (base + i) as nat)
}

proof fn lemma_item_slots_concat(a: Seq<OpModel>, b: Seq<OpModel>)
    ensures
        item_slots(a + b) == item_slots(a) + item_slots(b),
    decreases b.len(),
{
    if b.len() == 0 {
        assert(a + b =~= a);
        assert(item_slots(b) =~= Seq::<nat>::empty());
        assert(item_slots(a) + item_slots(b) =~= item_slots(a));
    } else {
        let bp = b.subrange(0, b.len() - 1);
        lemma_item_slots_concat(a, bp);
        assert((a + b).subrange(0, (a + b).len() - 1) =~= a + bp);
        assert((a + b)[(a + b).len() - 1] == b[b.len() - 1]);
        match b[b.len() - 1] {
            OpModel::Item { slot, .. } => {
                assert(item_slots(a) + item_slots(bp).push(slot) =~= (item_slots(a) + item_slots(
                    bp,
                )).push(slot));
            },
            _ => {},
        }
    }
}

proof fn lemma_item_slots_single(op: OpModel)
    ensures
        item_slots(seq![op]) == match op {
            OpModel::Item { slot, .. } => seq![slot],
            _ => Seq::<nat>::empty(),
        },
{
    assert(seq![op].subrange(0, 0) =~= Seq::<OpModel>::empty());
    assert(item_slots(Seq::<OpModel>::empty()) =~= Seq::<nat>::empty());
}

proof fn lemma_slot_range_concat(base: nat, n: nat, k: nat)
    ensures
        slot_range(base, n) + slot_range(base + n, k) == slot_range(base, n + k),
{
    assert(slot_range(base, n) + slot_range(base + n, k) =~= slot_range(base, n + k));
}

/// The item steps of an entry's plan carry the consecutive slots that start
/// at `base`, one per selectable entry.
pub proof fn lemma_entry_slots(e: EntryModel, base: nat)
    ensures
        item_slots(entry_ops(e, base)) == slot_range(base, entry_ids(e).len()),
    decreases e,
{
    match e {
        EntryModel::Text(t) => {
            let op = OpModel::Item { slot: base, text: t.text, check: None, enabled: t.active };
            lemma_item_slots_single(op);
            assert(slot_range(base, 1) =~= seq![base]);
        },
        EntryModel::Check(c) => {
            let op = OpModel::Item {
                slot: base,
                text: c.text,
                check: Some(c.ticked),
                enabled: c.active,
            };
            lemma_item_slots_single(op);
            assert(slot_range(base, 1) =~= seq![base]);
        },
        EntryModel::Sub(s) => {
            let open = seq![OpModel::BeginSub { text: s.text, enabled: s.active }];
            let close = seq![OpModel::EndSub];
            lemma_menu_slots(s.entries, base);
            lemma_item_slots_concat(open, menu_ops(s.entries, base));
            lemma_item_slots_concat(open + menu_ops(s.entries, base), close);
            lemma_item_slots_single(OpModel::BeginSub { text: s.text, enabled: s.active });
            lemma_item_slots_single(OpModel::EndSub);
            assert(item_slots(entry_ops(e, base)) =~= slot_range(base, entry_ids(e).len()));
        },
        EntryModel::Divider => {
            let op = OpModel::Separator;
            lemma_item_slots_single(op);
            assert(slot_range(base, 0) =~= Seq::<nat>::empty());
        },
    }
}

/// The item steps of a menu's plan carry the consecutive slots that start at
/// `base`, one per selectable entry, in step order.
pub proof fn lemma_menu_slots(m: Seq<EntryModel>, base: nat)
    ensures
        item_slots(menu_ops(m, base)) == slot_range(base, menu_ids(m).len()),
    decreases m,
{
    if m.len() == 0 {
        assert(item_slots(Seq::<OpModel>::empty()) =~= Seq::<nat>::empty());
        assert(slot_range(base, 0) =~= Seq::<nat>::empty());
    } else {
        let prefix = m.subrange(0, m.len() - 1);
        let last = m[m.len() - 1];
        let n = menu_ids(prefix).len();
        lemma_menu_slots(prefix, base);
        lemma_entry_slots(last, base + n);
        lemma_item_slots_concat(menu_ops(prefix, base), entry_ops(last, base + n));
        lemma_slot_range_concat(base, n, entry_ids(last).len());
    }
}

/// The shape of a menu's plan: the item steps carry the slots `0, 1, ...`
/// in order, one per ID of the selection table, so every native item refers
/// to its own row of the table; and the submenu steps open and close in
/// matching pairs.
pub proof fn lemma_plan_shape(menu: Seq<EntryModel>)
    ensures
        item_slots(menu_ops(menu, 0)) == slot_range(0, menu_ids(menu).len()),
        well_nested(menu_ops(menu, 0)),
{
    lemma_menu_slots(menu, 0);
    lemma_menu_well_nested(menu, 0);
}

/// The selectable entries (text and checkbox) of one entry, depth first.
pub open spec fn entry_selectables(e: EntryModel) -> Seq<EntryModel>
    decreases e,
{
    match e {
        EntryModel::Text(_) => seq![e],
        EntryModel::Check(_) => seq![e],
        EntryModel::Sub(s) => menu_selectables(s.entries),
        EntryModel::Divider => Seq::empty(),
    }
}

/// The selectable entries (text and checkbox) of a menu, depth first, in
/// menu order.
pub open spec fn menu_selectables(m: Seq<EntryModel>) -> Seq<EntryModel>
    decreases m,
{
    if m.len() == 0 {
        Seq::empty()
    } else {
        menu_selectables(m.subrange(0, m.len() - 1)) + entry_selectables(m[m.len() - 1])
    }
}

/// The item steps of a plan, in step order.
pub open spec fn item_ops(ops: Seq<OpModel>) -> Seq<OpModel>
    decreases ops.len(),
{
    if ops.len() == 0 {
        Seq::empty()
    } else {
        let rest = item_ops(ops.subrange(0, ops.len() - 1));
        match ops[ops.len() - 1] {
            OpModel::Item { .. } => rest.push(ops[ops.len() - 1]),
            _ => rest,
        }
    }
}

/// The item step that shows a selectable entry with slot `slot`.
spec fn shown_as(e: EntryModel, slot: nat) -> OpModel {
    match e {
        EntryModel::Text(t) => OpModel::Item { slot, text: t.text, check: None, enabled: t.active },
        EntryModel::Check(c) => OpModel::Item {
            slot,
            text: c.text,
            check: Some(c.ticked),
            enabled: c.active,
        },
        _ => OpModel::Separator,
    }
}

/// The ID of a selectable entry.
spec fn id_of(e: EntryModel) -> Seq<char> {
    match e {
        EntryModel::Text(t) => t.id,
        EntryModel::Check(c) => c.id,
        _ => Seq::empty(),
    }
}

/// Whether the steps, the IDs and the selectable entries of a menu part
/// agree: one item step and one ID per selectable entry, in order.
spec fn items_agree(ops: Seq<OpModel>, ids: Seq<Seq<char>>, sel: Seq<EntryModel>, base: nat) -> bool {
    &&& item_ops(ops).len() == sel.len()
    &&& ids.len() == sel.len()
    &&& forall|k: int|
        0 <= k < sel.len() ==> {
            &&& (sel[k] is Text || sel[k] is Check)
            &&& #[trigger] item_ops(ops)[k] == shown_as(sel[k], (base + k) as nat)
            &&& ids[k] == id_of(sel[k])
        }
}

proof fn lemma_item_ops_concat(a: Seq<OpModel>, b: Seq<OpModel>)
    ensures
        item_ops(a + b) == item_ops(a) + item_ops(b),
    decreases b.len(),
{
    if b.len() == 0 {
        assert(a + b =~= a);
        assert(item_ops(b) =~= Seq::<OpModel>::empty());
        assert(item_ops(a) + item_ops(b) =~= item_ops(a));
    } else {
        let bp = b.subrange(0, b.len() - 1);
        lemma_item_ops_concat(a, bp);
        assert((a + b).subrange(0, (a + b).len() - 1) =~= a + bp);
        assert((a + b)[(a + b).len() - 1] == b[b.len() - 1]);
        match b[b.len() - 1] {
            OpModel::Item { .. } => {
                assert(item_ops(a) + item_ops(bp).push(b[b.len() - 1]) =~= (item_ops(a)
                    + item_ops(bp)).push(b[b.len() - 1]));
            },
            _ => {},
        }
    }
}

proof fn lemma_item_ops_single(op: OpModel)
    ensures
        item_ops(seq![op]) == (if op is Item {
            seq![op]
        } else {
            Seq::<OpModel>::empty()
        }),
{
    assert(seq![op].subrange(0, 0) =~= Seq::<OpModel>::empty());
    assert(item_ops(Seq::<OpModel>::empty()) =~= Seq::<OpModel>::empty());
    assert(seq![op][0] == op);
}

proof fn lemma_agree_concat(
    o1: Seq<OpModel>,
    i1: Seq<Seq<char>>,
    s1: Seq<EntryModel>,
    o2: Seq<OpModel>,
    i2: Seq<Seq<char>>,
    s2: Seq<EntryModel>,
    base: nat,
)
    requires
        items_agree(o1, i1, s1, base),
        items_agree(o2, i2, s2, base + s1.len()),
    ensures
        items_agree(o1 + o2, i1 + i2, s1 + s2, base),
{
    lemma_item_ops_concat(o1, o2);
    assert forall|k: int| 0 <= k < (s1 + s2).len() implies {
        &&& ((s1 + s2)[k] is Text || (s1 + s2)[k] is Check)
        &&& #[trigger] item_ops(o1 + o2)[k] == shown_as((s1 + s2)[k], (base + k) as nat)
        &&& (i1 + i2)[k] == id_of((s1 + s2)[k])
    } by {
        if k < s1.len() {
            assert(item_ops(o1)[k] == shown_as(s1[k], (base + k) as nat));
        } else {
            let j = k - s1.len();
            assert(item_ops(o2)[j] == shown_as(s2[j], (base + s1.len() + j) as nat));
        }
    }
}

proof fn lemma_entry_items(e: EntryModel, base: nat)
    ensures
        items_agree(entry_ops(e, base), entry_ids(e), entry_selectables(e), base),
    decreases e,
{
    match e {
        EntryModel::Text(t) => {
            lemma_item_ops_single(
                OpModel::Item { slot: base, text: t.text, check: None, enabled: t.active },
            );
        },
        EntryModel::Check(c) => {
            lemma_item_ops_single(
                OpModel::Item {
                    slot: base,
                    text: c.text,
                    check: Some(c.ticked),
                    enabled: c.active,
                },
            );
        },
        EntryModel::Sub(s) => {
            let open = seq![OpModel::BeginSub { text: s.text, enabled: s.active }];
            let close = seq![OpModel::EndSub];
            lemma_menu_items(s.entries, base);
            lemma_item_ops_single(OpModel::BeginSub { text: s.text, enabled: s.active });
            lemma_item_ops_single(OpModel::EndSub);
            lemma_item_ops_concat(open, menu_ops(s.entries, base));
            lemma_item_ops_concat(open + menu_ops(s.entries, base), close);
            assert(item_ops(entry_ops(e, base)) =~= item_ops(menu_ops(s.entries, base)));
        },
        EntryModel::Divider => {
            lemma_item_ops_single(OpModel::Separator);
        },
    }
}

proof fn lemma_menu_items(m: Seq<EntryModel>, base: nat)
    ensures
        items_agree(menu_ops(m, base), menu_ids(m), menu_selectables(m), base),
    decreases m,
{
    if m.len() == 0 {
        assert(item_ops(Seq::<OpModel>::empty()) =~= Seq::<OpModel>::empty());
    } else {
        let prefix = m.subrange(0, m.len() - 1);
        let last = m[m.len() - 1];
        lemma_menu_items(prefix, base);
        lemma_entry_items(last, base + menu_ids(prefix).len());
        lemma_agree_concat(
            menu_ops(prefix, base),
            menu_ids(prefix),
            menu_selectables(prefix),
            entry_ops(last, base + menu_ids(prefix).len()),
            entry_ids(last),
            entry_selectables(last),
            base,
        );
    }
}

/// Each selectable entry of a menu is shown by the item step and found by
/// the selection-table row of its own position: the `k`-th text or checkbox
/// entry, depth first, gets the `k`-th item step of the plan, with slot `k`,
/// its own label, a check mark exactly for a checkbox (set as the checkbox
/// is ticked), enabled exactly when the entry is active; and the `k`-th ID
/// of the table is that entry's ID. There are no other item steps or IDs.
pub proof fn lemma_plan_items(menu: Seq<EntryModel>)
    ensures
        item_ops(menu_ops(menu, 0)).len() == menu_selectables(menu).len(),
        menu_ids(menu).len() == menu_selectables(menu).len(),
        forall|k: int|
            0 <= k < menu_selectables(menu).len() ==> match menu_selectables(menu)[k] {
                EntryModel::Text(t) => {
                    &&& #[trigger] item_ops(menu_ops(menu, 0))[k] == OpModel::Item {
                        slot: k as nat,
                        text: t.text,
                        check: None,
                        enabled: t.active,
                    }
                    &&& menu_ids(menu)[k] == t.id
                },
                EntryModel::Check(c) => {
                    &&& item_ops(menu_ops(menu, 0))[k] == OpModel::Item {
                        slot: k as nat,
                        text: c.text,
                        check: Some(c.ticked),
                        enabled: c.active,
                    }
                    &&& menu_ids(menu)[k] == c.id
                },
                _ => false,
            },
{
    lemma_menu_items(menu, 0);
    assert forall|k: int| 0 <= k < menu_selectables(menu).len() implies match menu_selectables(
        menu,
    )[k] {
        EntryModel::Text(t) => {
            &&& #[trigger] item_ops(menu_ops(menu, 0))[k] == OpModel::Item {
                slot: k as nat,
                text: t.text,
                check: None,
                enabled: t.active,
            }
            &&& menu_ids(menu)[k] == t.id
        },
        EntryModel::Check(c) => {
            &&& item_ops(menu_ops(menu, 0))[k] == OpModel::Item {
                slot: k as nat,
                text: c.text,
                check: Some(c.ticked),
                enabled: c.active,
            }
            &&& menu_ids(menu)[k] == c.id
        },
        _ => false,
    } by {
        assert(item_ops(menu_ops(menu, 0))[k] == shown_as(menu_selectables(menu)[k], k as nat));
    }
}

/// Adding an entry to a menu appends the entry's steps, numbered after the
/// menu's selectable entries, and appends the entry's IDs to the selection
/// table; the steps and IDs already planned stay as they were.
pub proof fn lemma_plan_after_add(m: Seq<EntryModel>, e: EntryModel)
    ensures
        menu_ops(m.push(e), 0) == menu_ops(m, 0) + entry_ops(e, menu_ids(m).len()),
        menu_ids(m.push(e)) == menu_ids(m) + entry_ids(e),
{
    assert(m.push(e).subrange(0, m.len() as int) =~= m);
    assert(m.push(e)[m.len() as int] == e);
}

/// How a step changes the number of open submenus.
pub open spec fn depth_change(op: OpModel) -> int {
    match op {
        OpModel::BeginSub { .. } => 1,
        OpModel::EndSub => -1,
        _ => 0,
    }
}

/// The number of submenus left open after the steps.
pub open spec fn nesting(ops: Seq<OpModel>) -> int
    decreases ops.len(),
{
    if ops.len() == 0 {
        0
    } else {
        nesting(ops.subrange(0, ops.len() - 1)) + depth_change(ops[ops.len() - 1])
    }
}

/// Whether every `EndSub` closes a submenu that is open, and every submenu
/// is closed at the end.
pub open spec fn well_nested(ops: Seq<OpModel>) -> bool {
    &&& nesting(ops) == 0
    &&& forall|k: int| 0 <= k <= ops.len() ==> nesting(#[trigger] ops.subrange(0, k)) >= 0
}

proof fn lemma_nesting_concat(a: Seq<OpModel>, b: Seq<OpModel>)
    ensures
        nesting(a + b) == nesting(a) + nesting(b),
    decreases b.len(),
{
    if b.len() == 0 {
        assert(a + b =~= a);
    } else {
        let bp = b.subrange(0, b.len() - 1);
        lemma_nesting_concat(a, bp);
        assert((a + b).subrange(0, (a + b).len() - 1) =~= a + bp);
        assert((a + b)[(a + b).len() - 1] == b[b.len() - 1]);
    }
}

proof fn lemma_well_nested_concat(a: Seq<OpModel>, b: Seq<OpModel>)
    requires
        well_nested(a),
        well_nested(b),
    ensures
        well_nested(a + b),
{
    lemma_nesting_concat(a, b);
    assert forall|k: int| 0 <= k <= (a + b).len() implies nesting(
        #[trigger] (a + b).subrange(0, k),
    ) >= 0 by {
        if k <= a.len() {
            assert((a + b).subrange(0, k) =~= a.subrange(0, k));
        } else {
            assert((a + b).subrange(0, k) =~= a + b.subrange(0, k - a.len()));
            lemma_nesting_concat(a, b.subrange(0, k - a.len()));
            assert(a.subrange(0, a.len() as int) =~= a);
            assert(nesting(b.subrange(0, k - a.len())) >= 0);
        }
    }
}

proof fn lemma_single_nesting(op: OpModel)
    ensures
        nesting(seq![op]) == depth_change(op),
{
    assert(seq![op].subrange(0, 0) =~= Seq::<OpModel>::empty());
    assert(nesting(Seq::<OpModel>::empty()) == 0);
    assert(seq![op][0] == op);
}

proof fn lemma_leaf_well_nested(op: OpModel)
    requires
        depth_change(op) == 0,
    ensures
        well_nested(seq![op]),
{
    lemma_single_nesting(op);
    assert forall|k: int| 0 <= k <= 1 implies nesting(#[trigger] seq![op].subrange(0, k)) >= 0 by {
        if k == 0 {
            assert(seq![op].subrange(0, 0) =~= Seq::<OpModel>::empty());
        } else {
            assert(seq![op].subrange(0, 1) =~= seq![op]);
        }
    }
}

proof fn lemma_wrapped_well_nested(open: OpModel, inner: Seq<OpModel>)
    requires
        open is BeginSub,
        well_nested(inner),
    ensures
        well_nested(seq![open] + inner + seq![OpModel::EndSub]),
{
    let ops = seq![open] + inner + seq![OpModel::EndSub];
    lemma_single_nesting(open);
    lemma_single_nesting(OpModel::EndSub);
    lemma_nesting_concat(seq![open], inner);
    lemma_nesting_concat(seq![open] + inner, seq![OpModel::EndSub]);
    assert forall|k: int| 0 <= k <= ops.len() implies nesting(#[trigger] ops.subrange(0, k)) >= 0 by {
        if k == 0 {
            assert(ops.subrange(0, 0) =~= Seq::<OpModel>::empty());
        } else if k <= inner.len() + 1 {
            assert(ops.subrange(0, k) =~= seq![open] + inner.subrange(0, k - 1));
            lemma_nesting_concat(seq![open], inner.subrange(0, k - 1));
        } else {
            assert(ops.subrange(0, k) =~= ops);
        }
    }
}

/// The steps of an entry open and close its submenus in matching pairs.
pub proof fn lemma_entry_well_nested(e: EntryModel, base: nat)
    ensures
        well_nested(entry_ops(e, base)),
    decreases e,
{
    match e {
        EntryModel::Text(t) => {
            lemma_leaf_well_nested(
                OpModel::Item { slot: base, text: t.text, check: None, enabled: t.active },
            );
        },
        EntryModel::Check(c) => {
            lemma_leaf_well_nested(
                OpModel::Item {
                    slot: base,
                    text: c.text,
                    check: Some(c.ticked),
                    enabled: c.active,
                },
            );
        },
        EntryModel::Sub(s) => {
            lemma_menu_well_nested(s.entries, base);
            lemma_wrapped_well_nested(
                OpModel::BeginSub { text: s.text, enabled: s.active },
                menu_ops(s.entries, base),
            );
        },
        EntryModel::Divider => {
            lemma_leaf_well_nested(OpModel::Separator);
        },
    }
}

/// The steps of a menu open and close its submenus in matching pairs: a
/// backend that keeps a stack of open native menus never closes one that
/// is not open, and ends with only the top menu.
pub proof fn lemma_menu_well_nested(m: Seq<EntryModel>, base: nat)
    ensures
        well_nested(menu_ops(m, base)),
    decreases m,
{
    if m.len() == 0 {
        assert forall|k: int| 0 <= k <= 0 implies nesting(
            #[trigger] Seq::<OpModel>::empty().subrange(0, k),
        ) >= 0 by {
            assert(Seq::<OpModel>::empty().subrange(0, k) =~= Seq::<OpModel>::empty());
        }
    } else {
        let prefix = m.subrange(0, m.len() - 1);
        lemma_menu_well_nested(prefix, base);
        lemma_entry_well_nested(m[m.len() - 1], base + menu_ids(prefix).len());
        lemma_well_nested_concat(
            menu_ops(prefix, base),
            entry_ops(m[m.len() - 1], base + menu_ids(prefix).len()),
        );
    }
}

fn plan_entries(
    entries: &[EntryKind],
    ops: &mut Vec<MenuOp>,
    ids: &mut Vec<ItemId>,
    Ghost(m): Ghost<Seq<EntryModel>>,
)
    requires
        entries@.len() == m.len(),
        forall|i: int| 0 <= i < m.len() ==> #[trigger] entries@[i]@ == m[i],
    ensures
        ops_model(final(ops)@) == ops_model(old(ops)@) + menu_ops(m, old(ids)@.len()),
        ids_model(final(ids)@) == ids_model(old(ids)@) + menu_ids(m),
    decreases m,
{
    let ghost ops0 = ops@;
    let ghost ids0 = ids@;
    let mut i: usize = 0;
    while i < entries.len()
        invariant
            i <= entries@.len(),
            entries@.len() == m.len(),
            forall|j: int| 0 <= j < m.len() ==> #[trigger] entries@[j]@ == m[j],
            ops_model(ops@) == ops_model(ops0) + menu_ops(m.subrange(0, i as int), ids0.len()),
            ids_model(ids@) == ids_model(ids0) + menu_ids(m.subrange(0, i as int)),
        decreases entries@.len() - i,
    {
        let ghost prefix = m.subrange(0, i as int);
        let ghost ops_before = ops@;
        let ghost ids_before = ids@;
        let ghost base = ids0.len() + menu_ids(prefix).len();
        assert(m.subrange(0, i + 1).subrange(0, i as int) =~= prefix);
        assert(m.subrange(0, i + 1)[i as int] == m[i as int]);
        assert(entries@[i as int]@ == m[i as int]);
        proof {
            lemma_entry_kind_view(entries@[i as int]);
        }
        assert(ids_model(ids@).len() == ids@.len());
        assert(ids@.len() == base);
        match &entries[i] {
            EntryKind::Text(t) => {
                let slot: usize = ids.len();
                ops.push(
                    MenuOp::Item {
                        slot,
                        text: t.text().to_owned(),
                        check: None,
                        enabled: t.active(),
                    },
                );
                ids.push(t.id().clone());
                assert(ops_model(ops@) =~= ops_model(ops_before) + entry_ops(m[i as int], base));
                assert(ids_model(ids@) =~= ids_model(ids_before) + entry_ids(m[i as int]));
            },
            EntryKind::Check(c) => {
                let slot: usize = ids.len();
                ops.push(
                    MenuOp::Item {
                        slot,
                        text: c.text().to_owned(),
                        check: Some(c.ticked()),
                        enabled: c.active(),
                    },
                );
                ids.push(c.id().clone());
                assert(ops_model(ops@) =~= ops_model(ops_before) + entry_ops(m[i as int], base));
                assert(ids_model(ids@) =~= ids_model(ids_before) + entry_ids(m[i as int]));
            },
            EntryKind::Sub(s) => {
                let ghost sm: SubMenuModel = s@;
                assert(m[i as int] == EntryModel::Sub(sm));
                ops.push(MenuOp::BeginSub { text: s.text().to_owned(), enabled: s.active() });
                let ghost ops_mid = ops@;
                assert(ops_model(ops_mid) =~= ops_model(ops_before) + seq![
                    OpModel::BeginSub { text: sm.text, enabled: sm.active },
                ]);
                plan_entries(s.entries(), ops, ids, Ghost(sm.entries));
                let ghost ops_inner = ops@;
                ops.push(MenuOp::EndSub);
                assert(ops_model(ops@) =~= ops_model(ops_inner) + seq![OpModel::EndSub]);
                assert(ops_model(ops@) =~= ops_model(ops_before) + entry_ops(m[i as int], base));
                assert(ids_model(ids@) =~= ids_model(ids_before) + entry_ids(m[i as int]));
            },
            EntryKind::Divider => {
                ops.push(MenuOp::Separator);
                assert(ops_model(ops@) =~= ops_model(ops_before) + entry_ops(m[i as int], base));
                assert(ids_model(ids@) =~= ids_model(ids_before) + entry_ids(m[i as int]));
            },
        }
        i = i + 1;
    }
    assert(m.subrange(0, m.len() as int) =~= m);
}

impl PopupMenu {
    /// Lays the menu out for a native backend: the steps that build it, and
    /// the selection table of its selectable entries in menu order.
    pub fn plan(&self) -> (r: MenuPlan)
        ensures
            ops_model(r.ops@) == menu_ops(self@, 0),
            ids_model(r.ids@) == menu_ids(self@),
    {
        let mut ops: Vec<MenuOp> = Vec::new();
        let mut ids: Vec<ItemId> = Vec::new();
        let entries = self.entries();
        plan_entries(entries, &mut ops, &mut ids, Ghost(self@));
        assert(ops_model(ops@) =~= menu_ops(self@, 0));
        assert(ids_model(ids@) =~= menu_ids(self@));
        MenuPlan { ops, ids }
    }
}

/// The Windows command number of the item with slot `slot`.
pub open spec fn command_of(slot: int) -> int {
    slot + 1
}

/// The slot of the item with Windows command number `cmd`.
pub open spec fn slot_of_command(cmd: int) -> int {
    cmd - 1
}

/// The command number that a Windows menu item is appended with: its slot
/// plus one, as command 0 means that the menu was dismissed.
pub fn command_id(slot: usize) -> (r: usize)
    requires
        slot < usize::MAX,
    ensures
        r == command_of(slot as int),
        r > 0,
        slot_of_command(r as int) == slot,
{
    slot + 1
}

/// Choosing the item appended with [`command_id`]`(slot)` selects the
/// plan's ID at `slot`: the command of every slot is positive and leads
/// back to that slot.
pub proof fn lemma_command_roundtrip(slot: int)
    requires
        slot >= 0,
    ensures
        command_of(slot) > 0,
        slot_of_command(command_of(slot)) == slot,
{
}

impl MenuPlan {
    /// The ID that the native item built from the step with slot `slot`
    /// stands for; `None` for a slot outside the selection table.
    pub fn selected(&self, slot: usize) -> (r: Option<ItemId>)
        ensures
            r is Some <==> slot < self.ids@.len(),
            r matches Some(id) ==> id == self.ids@[slot as int],
    {
        if slot < self.ids.len() {
            Some(self.ids[slot].clone())
        } else {
            None
        }
    }

    /// The ID behind a Windows menu command: the inverse of
    /// [`command_id`]. Command 0 reports a menu dismissed without a choice.
    pub fn selected_command(&self, cmd: i32) -> (r: Option<ItemId>)
        ensures
            r is Some <==> 0 < cmd && slot_of_command(cmd as int) < self.ids@.len(),
            r matches Some(id) ==> id == self.ids@[slot_of_command(cmd as int)],
    {
        if cmd > 0 {
            self.selected((cmd - 1) as usize)
        } else {
            None
        }
    }

    /// The ID behind the data index that a Qt action carries; a negative
    /// index, or one past the table, selects nothing.
    pub fn selected_data(&self, index: i32) -> (r: Option<ItemId>)
        ensures
            r is Some <==> 0 <= index && index < self.ids@.len(),
            r matches Some(id) ==> id == self.ids@[index as int],
    {
        if index >= 0 {
            self.selected(index as usize)
        } else {
            None
        }
    }
}

/// The menu rendering backend to use on Linux.
#[derive(Debug, Clone, Copy, PartialEq, Eq, Structural)]
pub enum Backend {
    Gtk,
    Qt,
}

impl Default for Backend {
    fn default() -> (r: Self)
        ensures
            r == Backend::Gtk,
    {
        Backend::Gtk
    }
}

impl Backend {
    /// The number under which the backend preference is stored.
    pub open spec fn code_of(self) -> u8 {
        match self {
            Backend::Gtk => 0,
            Backend::Qt => 1,
        }
    }

    /// The number under which the backend preference is stored.
    pub fn code(self) -> (r: u8)
        ensures
            r == self.code_of(),
    {
        match self {
            Backend::Gtk => 0,
            Backend::Qt => 1,
        }
    }

    /// The backend that a stored number stands for: 1 is Qt, anything else
    /// GTK.
    pub fn from_code(code: u8) -> (r: Backend)
        ensures
            r == (if code == 1 {
                Backend::Qt
            } else {
                Backend::Gtk
            }),
    {
        match code {
            1 => Backend::Qt,
            _ => Backend::Gtk,
        }
    }
}

/// Storing a backend preference and reading it back gives the same backend.
pub proof fn lemma_backend_code_roundtrip(b: Backend)
    ensures
        (if b.code_of() == 1 {
            Backend::Qt
        } else {
            Backend::Gtk
        }) == b,
{
}

} // verus!
