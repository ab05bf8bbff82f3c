use vstd::prelude::*;

verus! {

/// Unique identifier for a menu item.
///
/// Returned by a popup to indicate which item was selected.
#[derive(Debug, PartialEq, Eq, Hash)]
pub struct ItemId(pub String);

impl View for ItemId {
    type V = Seq<char>;

    open spec fn view(&self) -> Seq<char> {
        self.0@
    }
}

impl Clone for ItemId {
    fn clone(&self) -> (r: Self)
        ensures
            r == *self,
    {
        ItemId(self.0.clone())
    }
}

impl ItemId {
    /// Creates a new item ID.
    pub fn of(id: &str) -> (r: ItemId)
        ensures
            r@ == id@,
    {
        ItemId(id.to_owned())
    }
}

impl From<&str> for ItemId {
    fn from(s: &str) -> (r: ItemId)
        ensures
            r@ == s@,
    {
        ItemId(s.to_owned())
    }
}

impl vstd::std_specs::convert::FromSpecImpl<&str> for ItemId {
    /// A `String` cannot be written down in spec code, so the conversion is
    /// described by the view in `from`'s own `ensures` instead.
    open spec fn obeys_from_spec() -> bool {
        false
    }

    open spec fn from_spec(v: &str) -> ItemId {
        arbitrary()
    }
}

impl From<String> for ItemId {
    fn from(s: String) -> (r: ItemId)
        ensures
            r.0 == s,
    {
        ItemId(s)
    }
}

impl vstd::std_specs::convert::FromSpecImpl<String> for ItemId {
    open spec fn obeys_from_spec() -> bool {
        true
    }

    open spec fn from_spec(v: String) -> ItemId {
        ItemId(v)
    }
}

impl AsRef<str> for ItemId {
    fn as_ref(&self) -> (r: &str)
        ensures
            r@ == self@,
    {
        self.0.as_str()
    }
}

/// What a text entry is: its item ID, its label and whether it can be clicked.
pub struct TextModel {
    pub id: Seq<char>,
    pub text: Seq<char>,
    pub active: bool,
}

/// What a checkbox entry is: its item ID, its label, its check state and
/// whether it can be clicked.
pub struct CheckModel {
    pub id: Seq<char>,
    pub text: Seq<char>,
    pub ticked: bool,
    pub active: bool,
}

/// What a submenu is: its label, its entries and whether it can be opened.
pub struct SubMenuModel {
    pub text: Seq<char>,
    pub entries: Seq<EntryModel>,
    pub active: bool,
}

/// What a menu entry is.
pub enum EntryModel {
    Text(TextModel),
    Check(CheckModel),
    Sub(SubMenuModel),
    Divider,
}

/// The type of a menu entry.
pub enum EntryKind {
    Text(TextEntry),
    Check(CheckEntry),
    Sub(SubMenu),
    Divider,
}

/// A clickable text menu item.
pub struct TextEntry {
    id: ItemId,
    text: String,
    active: bool,
}

/// A checkbox menu item.
pub struct CheckEntry {
    id: ItemId,
    text: String,
    ticked: bool,
    active: bool,
}

/// A nested submenu.
pub struct SubMenu {
    text: String,
    entries: Vec<EntryKind>,
    active: bool,
}

/// A visual separator line between menu items.
#[derive(Clone, Copy)]
pub struct Divider;

/// A popup menu that can be displayed at a screen position.
///
/// Build a menu by adding entries with [`add`](Self::add), then turn it into
/// a [`MenuPlan`](crate::MenuPlan) for a native backend.
pub struct PopupMenu {
    entries: Vec<EntryKind>,
}

/// The model of one entry.
pub closed spec fn entry_model(e: EntryKind) -> EntryModel
    decreases e,
{
    match e {
        EntryKind::Text(t) => EntryModel::Text(t@),
        EntryKind::Check(c) => EntryModel::Check(c@),
        EntryKind::Sub(s) => EntryModel::Sub(
            SubMenuModel { text: s.text@, entries: entries_model(s.entries@), active: s.active },
        ),
        EntryKind::Divider => EntryModel::Divider,
    }
}

/// The models of a sequence of entries, in order.
pub closed spec fn entries_model(v: Seq<EntryKind>) -> Seq<EntryModel>
    decreases v,
{
    if v.len() == 0 {
        Seq::empty()
    } else {
        entries_model(v.subrange(0, v.len() - 1)).push(entry_model(v[v.len() - 1]))
    }
}

/// The model of a sequence of entries has one model per entry, in order.
pub proof fn lemma_entries_model(v: Seq<EntryKind>)
    ensures
        entries_model(v).len() == v.len(),
        forall|i: int| 0 <= i < v.len() ==> #[trigger] entries_model(v)[i] == v[i]@,
    decreases v.len(),
{
    if v.len() > 0 {
        lemma_entries_model(v.subrange(0, v.len() - 1));
        assert forall|i: int| 0 <= i < v.len() implies #[trigger] entries_model(v)[i] == v[i]@ by {
            if i < v.len() - 1 {
                assert(v.subrange(0, v.len() - 1)[i] == v[i]);
            }
        }
    }
}

/// The model of a pushed sequence is the model pushed with the new entry's model.
pub proof fn lemma_entries_model_push(v: Seq<EntryKind>, e: EntryKind)
    ensures
        entries_model(v.push(e)) == entries_model(v).push(e@),
{
    assert(v.push(e).subrange(0, v.len() as int) =~= v);
}

impl View for EntryKind {
    type V = EntryModel;

    open spec fn view(&self) -> EntryModel {
        entry_model(*self)
    }
}

impl View for TextEntry {
    type V = TextModel;

    closed spec fn view(&self) -> TextModel {
        TextModel { id: self.id@, text: self.text@, active: self.active }
    }
}

impl View for CheckEntry {
    type V = CheckModel;

    closed spec fn view(&self) -> CheckModel {
        CheckModel { id: self.id@, text: self.text@, ticked: self.ticked, active: self.active }
    }
}

impl View for SubMenu {
    type V = SubMenuModel;

    closed spec fn view(&self) -> SubMenuModel {
        SubMenuModel { text: self.text@, entries: entries_model(self.entries@), active: self.active }
    }
}

impl View for PopupMenu {
    type V = Seq<EntryModel>;

    closed spec fn view(&self) -> Seq<EntryModel> {
        entries_model(self.entries@)
    }
}

/// The model of each kind of entry is the model of the entry it holds.
pub proof fn lemma_entry_kind_view(e: EntryKind)
    ensures
        e@ == match e {
            EntryKind::Text(t) => EntryModel::Text(t@),
            EntryKind::Check(c) => EntryModel::Check(c@),
            EntryKind::Sub(s) => EntryModel::Sub(s@),
            EntryKind::Divider => EntryModel::Divider,
        },
{
}

fn clone_entry(e: &EntryKind) -> (r: EntryKind)
    ensures
        r@ == e@,
    decreases e,
{
    match e {
        EntryKind::Text(t) => EntryKind::Text(t.clone()),
        EntryKind::Check(c) => EntryKind::Check(c.clone()),
        EntryKind::Sub(s) => {
            let entries = clone_entries(&s.entries);
            EntryKind::Sub(SubMenu { text: s.text.clone(), entries, active: s.active })
        },
        EntryKind::Divider => EntryKind::Divider,
    }
}

fn clone_entries(v: &Vec<EntryKind>) -> (r: Vec<EntryKind>)
    ensures
        entries_model(r@) == entries_model(v@),
    decreases v,
{
    let mut r: Vec<EntryKind> = Vec::new();
    let mut i: usize = 0;
    while i < v.len()
        invariant
            i <= v.len(),
            entries_model(r@) == entries_model(v@.subrange(0, i as int)),
        decreases v.len() - i,
    {
        let e = clone_entry(&v[i]);
        proof {
            lemma_entries_model_push(r@, e);
            assert(v@.subrange(0, i + 1).subrange(0, i as int) =~= v@.subrange(0, i as int));
        }
        r.push(e);
        i = i + 1;
    }
    assert(v@.subrange(0, v.len() as int) =~= v@);
    r
}

impl Clone for EntryKind {
    fn clone(&self) -> (r: Self)
        ensures
            r@ == self@,
    {
        clone_entry(self)
    }
}

impl Clone for TextEntry {
    fn clone(&self) -> (r: Self)
        ensures
            r@ == self@,
    {
        TextEntry { id: self.id.clone(), text: self.text.clone(), active: self.active }
    }
}

impl Clone for CheckEntry {
    fn clone(&self) -> (r: Self)
        ensures
            r@ == self@,
    {
        CheckEntry {
            id: self.id.clone(),
            text: self.text.clone(),
            ticked: self.ticked,
            active: self.active,
        }
    }
}

impl Clone for SubMenu {
    fn clone(&self) -> (r: Self)
        ensures
            r@ == self@,
    {
        SubMenu { text: self.text.clone(), entries: clone_entries(&self.entries), active: self.active }
    }
}

impl EntryKind {
    /// Returns the item ID if this is a selectable entry (text or check).
    pub fn item_id(&self) -> (r: Option<&ItemId>)
        ensures
            match self@ {
                EntryModel::Text(t) => r is Some && r->0@ == t.id,
                EntryModel::Check(c) => r is Some && r->0@ == c.id,
                _ => r is None,
            },
    {
        match self {
            EntryKind::Text(entry) => Some(entry.id()),
            EntryKind::Check(entry) => Some(entry.id()),
            EntryKind::Sub(_) => None,
            EntryKind::Divider => None,
        }
    }
}

impl TextEntry {
    /// Creates a new text entry with the given ID and label.
    pub fn of(id: &str, text: &str) -> (r: Self)
        ensures
            r@ == (TextModel { id: id@, text: text@, active: true }),
    {
        TextEntry { id: ItemId::of(id), text: text.to_owned(), active: true }
    }

    /// Marks this entry as inactive (grayed out, non-clickable).
    pub fn inactive(self) -> (r: Self)
        ensures
            r@ == (TextModel { active: false, ..self@ }),
    {
        let mut s = self;
        s.active = false;
        s
    }

    /// Returns the item ID.
    pub fn id(&self) -> (r: &ItemId)
        ensures
            r@ == self@.id,
    {
        &self.id
    }

    /// Returns the display text.
    pub fn text(&self) -> (r: &str)
        ensures
            r@ == self@.text,
    {
        self.text.as_str()
    }

    /// Returns whether this entry is active (clickable).
    pub fn active(&self) -> (r: bool)
        ensures
            r == self@.active,
    {
        self.active
    }
}

impl CheckEntry {
    /// Creates a new checkbox entry with the given ID, label, and initial state.
    pub fn of(id: &str, text: &str, ticked: bool) -> (r: Self)
        ensures
            r@ == (CheckModel { id: id@, text: text@, ticked, active: true }),
    {
        CheckEntry { id: ItemId::of(id), text: text.to_owned(), ticked, active: true }
    }

    /// Marks this entry as inactive (grayed out, non-clickable).
    pub fn inactive(self) -> (r: Self)
        ensures
            r@ == (CheckModel { active: false, ..self@ }),
    {
        let mut s = self;
        s.active = false;
        s
    }

    /// Returns the item ID.
    pub fn id(&self) -> (r: &ItemId)
        ensures
            r@ == self@.id,
    {
        &self.id
    }

    /// Returns the display text.
    pub fn text(&self) -> (r: &str)
        ensures
            r@ == self@.text,
    {
        self.text.as_str()
    }

    /// Returns whether the checkbox is checked.
    pub fn ticked(&self) -> (r: bool)
        ensures
            r == self@.ticked,
    {
        self.ticked
    }

    /// Returns whether this entry is active (clickable).
    pub fn active(&self) -> (r: bool)
        ensures
            r == self@.active,
    {
        self.active
    }
}

impl SubMenu {
    /// Creates a new submenu with the given label.
    pub fn of(text: &str) -> (r: Self)
        ensures
            r@ == (SubMenuModel { text: text@, entries: Seq::empty(), active: true }),
    {
        let r = SubMenu { text: text.to_owned(), entries: Vec::new(), active: true };
        assert(entries_model(r.entries@) =~= Seq::<EntryModel>::empty());
        r
    }

    /// Marks this submenu as inactive (grayed out, non-expandable).
    pub fn inactive(self) -> (r: Self)
        ensures
            r@ == (SubMenuModel { active: false, ..self@ }),
    {
        let mut s = self;
        s.active = false;
        s
    }

    /// Adds an entry to this submenu.
    pub fn add<E: AsEntry>(&mut self, entry: &E)
        ensures
            final(self)@ == (SubMenuModel {
                entries: old(self)@.entries.push(entry.entry_model()),
                ..old(self)@
            }),
    {
        let e = entry.as_entry();
        proof {
            lemma_entries_model_push(self.entries@, e);
        }
        self.entries.push(e);
    }

    /// Returns the display text.
    pub fn text(&self) -> (r: &str)
        ensures
            r@ == self@.text,
    {
        self.text.as_str()
    }

    /// Returns the entries in this submenu.
    pub fn entries(&self) -> (r: &[EntryKind])
        ensures
            r@.len() == self@.entries.len(),
            forall|i: int| 0 <= i < r@.len() ==> #[trigger] r@[i]@ == self@.entries[i],
    {
        proof {
            lemma_entries_model(self.entries@);
        }
        self.entries.as_slice()
    }

    /// Returns whether this submenu is active.
    pub fn active(&self) -> (r: bool)
        ensures
            r == self@.active,
    {
        self.active
    }
}

/// Trait for types that can be added to a menu.
///
/// Implemented by [`TextEntry`], [`CheckEntry`], [`SubMenu`], and [`Divider`].
pub trait AsEntry {
    /// The model of the entry that [`as_entry`](Self::as_entry) gives.
    spec fn entry_model(&self) -> EntryModel;

    /// Converts this type into an [`EntryKind`].
    fn as_entry(&self) -> (r: EntryKind)
        ensures
            r@ == self.entry_model(),
    ;
}

impl AsEntry for TextEntry {
    open spec fn entry_model(&self) -> EntryModel {
        EntryModel::Text(self@)
    }

    fn as_entry(&self) -> (r: EntryKind) {
        EntryKind::Text(self.clone())
    }
}

impl AsEntry for CheckEntry {
    open spec fn entry_model(&self) -> EntryModel {
        EntryModel::Check(self@)
    }

    fn as_entry(&self) -> (r: EntryKind) {
        EntryKind::Check(self.clone())
    }
}

impl AsEntry for SubMenu {
    open spec fn entry_model(&self) -> EntryModel {
        EntryModel::Sub(self@)
    }

    fn as_entry(&self) -> (r: EntryKind) {
        EntryKind::Sub(self.clone())
    }
}

impl AsEntry for Divider {
    open spec fn entry_model(&self) -> EntryModel {
        EntryModel::Divider
    }

    fn as_entry(&self) -> (r: EntryKind) {
        EntryKind::Divider
    }
}

impl PopupMenu {
    /// Creates an empty popup menu.
    pub fn new() -> (r: Self)
        ensures
            r@ == Seq::<EntryModel>::empty(),
    {
        let r = PopupMenu { entries: Vec::new() };
        assert(entries_model(r.entries@) =~= Seq::<EntryModel>::empty());
        r
    }

    /// Adds an entry to the menu.
    pub fn add<E: AsEntry>(&mut self, entry: &E)
        ensures
            final(self)@ == old(self)@.push(entry.entry_model()),
    {
        let e = entry.as_entry();
        proof {
            lemma_entries_model_push(self.entries@, e);
        }
        self.entries.push(e);
    }

    /// Returns the entries in this menu.
    pub fn entries(&self) -> (r: &[EntryKind])
        ensures
            r@.len() == self@.len(),
            forall|i: int| 0 <= i < r@.len() ==> #[trigger] r@[i]@ == self@[i],
    {
        proof {
            lemma_entries_model(self.entries@);
        }
        self.entries.as_slice()
    }
}

impl Default for PopupMenu {
    fn default() -> (r: Self)
        ensures
            r@ == Seq::<EntryModel>::empty(),
    {
        Self::new()
    }
}

/// The model of a menu after `add` is called with each entry of `added`, in
/// order: each call pushes one entry's model, as [`PopupMenu::add`] states.
pub open spec fn menu_after_adds(start: Seq<EntryModel>, added: Seq<EntryModel>) -> Seq<EntryModel>
    decreases added.len(),
{
    if added.len() == 0 {
        start
    } else {
        menu_after_adds(start.push(added[0]), added.subrange(1, added.len() as int))
    }
}

/// Adding entries one by one keeps them all, in the order added, after the
/// entries that were there: nothing is dropped, merged or reordered. From
/// [`PopupMenu::new`] the menu's entries are exactly the added ones.
pub proof fn lemma_menu_after_adds(start: Seq<EntryModel>, added: Seq<EntryModel>)
    ensures
        menu_after_adds(start, added) == start + added,
        menu_after_adds(Seq::empty(), added) == added,
    decreases added.len(),
{
    if added.len() > 0 {
        let rest = added.subrange(1, added.len() as int);
        lemma_menu_after_adds(start.push(added[0]), rest);
        assert(start.push(added[0]) + rest =~= start + added);
    } else {
        assert(start + added =~= start);
    }
    if added.len() > 0 {
        let rest = added.subrange(1, added.len() as int);
        lemma_menu_after_adds(Seq::<EntryModel>::empty().push(added[0]), rest);
        assert(Seq::<EntryModel>::empty().push(added[0]) + rest =~= added);
    }
}

/// One call on a submenu under construction.
pub enum SubMenuStep {
    /// [`SubMenu::add`] of an entry with this model.
    Add(EntryModel),
    /// [`SubMenu::inactive`].
    Inactive,
}

/// The model of a submenu after one call, as [`SubMenu::add`] and
/// [`SubMenu::inactive`] state.
pub open spec fn sub_step(m: SubMenuModel, step: SubMenuStep) -> SubMenuModel {
    match step {
        SubMenuStep::Add(e) => SubMenuModel { entries: m.entries.push(e), ..m },
        SubMenuStep::Inactive => SubMenuModel { active: false, ..m },
    }
}

/// The model of a submenu after the calls of `steps`, in order.
pub open spec fn sub_steps(m: SubMenuModel, steps: Seq<SubMenuStep>) -> SubMenuModel
    decreases steps.len(),
{
    if steps.len() == 0 {
        m
    } else {
        sub_steps(sub_step(m, steps[0]), steps.subrange(1, steps.len() as int))
    }
}

/// The models of the entries that `steps` add, in order.
pub open spec fn added_models(steps: Seq<SubMenuStep>) -> Seq<EntryModel>
    decreases steps.len(),
{
    if steps.len() == 0 {
        Seq::empty()
    } else {
        let rest = added_models(steps.subrange(1, steps.len() as int));
        match steps[0] {
            SubMenuStep::Add(e) => seq![e] + rest,
            SubMenuStep::Inactive => rest,
        }
    }
}

/// Whether `steps` make the submenu inactive.
pub open spec fn any_inactive(steps: Seq<SubMenuStep>) -> bool {
    exists|i: int| 0 <= i < steps.len() && #[trigger] steps[i] == SubMenuStep::Inactive
}

/// A submenu built by `add` and `inactive` calls in any order keeps every
/// added entry, in the order added, after the entries it had; `inactive`
/// touches no entry; the label never changes; and the submenu stays active
/// unless some call made it inactive.
pub proof fn lemma_submenu_steps(m: SubMenuModel, steps: Seq<SubMenuStep>)
    ensures
        sub_steps(m, steps).entries == m.entries + added_models(steps),
        sub_steps(m, steps).text == m.text,
        sub_steps(m, steps).active == (m.active && !any_inactive(steps)),
    decreases steps.len(),
{
    if steps.len() == 0 {
        assert(m.entries + added_models(steps) =~= m.entries);
    } else {
        let rest = steps.subrange(1, steps.len() as int);
        let m1 = sub_step(m, steps[0]);
        lemma_submenu_steps(m1, rest);
        match steps[0] {
            SubMenuStep::Add(e) => {
                assert(m.entries.push(e) + added_models(rest) =~= m.entries + (seq![e]
                    + added_models(rest)));
            },
            SubMenuStep::Inactive => {},
        }
        if any_inactive(steps) {
            let i = choose|i: int| 0 <= i < steps.len() && #[trigger] steps[i] == SubMenuStep::Inactive;
            if i > 0 {
                assert(rest[i - 1] == SubMenuStep::Inactive);
            }
        }
        if any_inactive(rest) {
            let j = choose|j: int| 0 <= j < rest.len() && #[trigger] rest[j] == SubMenuStep::Inactive;
            assert(steps[j + 1] == SubMenuStep::Inactive);
        }
    }
}

} // verus!
