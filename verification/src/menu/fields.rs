//! The text fields of the menu.

use crate::menu::state::{elapsed, elapsed_ms, MenuInput, Screen, DOUBLE_CLICK_MS};
use crate::strings::same_text;
use vstd::prelude::*;

verus! {

/// How many texts are kept for undoing.
pub const UNDO_STACK_LIMIT: usize = 50;

/// The texts that fields edit, and the state of editing.
pub struct TextFields {
    pub edit_name: String,
    pub edit_address: String,
    pub pack_search: String,
    /// The field that has the focus.
    pub focused: Option<u8>,
    /// Whether its whole text is selected.
    pub all_selected: bool,
    pub last_click_time: u64,
    pub last_click: Option<u8>,
    /// The texts that undoing restores, with the fields they belong to.
    pub undo_stack: Vec<(u8, String)>,
    /// When the text cursor began to blink.
    pub cursor_blink: u64,
}

/// The fields, as values.
pub struct FieldModel {
    pub edit_name: Seq<char>,
    pub edit_address: Seq<char>,
    pub pack_search: Seq<char>,
    pub focused: Option<u8>,
    pub all_selected: bool,
    pub last_click_time: u64,
    pub last_click: Option<u8>,
    pub undo: Seq<(u8, Seq<char>)>,
    pub cursor_blink: u64,
}

/// The views of some kept texts.
pub open spec fn undo_views(stack: Seq<(u8, String)>) -> Seq<(u8, Seq<char>)> {
    Seq::new(stack.len(), |i: int| (stack[i].0, stack[i].1@))
}

impl View for TextFields {
    type V = FieldModel;

    open spec fn view(&self) -> FieldModel {
        FieldModel {
            edit_name: self.edit_name@,
            edit_address: self.edit_address@,
            pack_search: self.pack_search@,
            focused: self.focused,
            all_selected: self.all_selected,
            last_click_time: self.last_click_time,
            last_click: self.last_click,
            undo: undo_views(self.undo_stack@),
            cursor_blink: self.cursor_blink,
        }
    }
}

impl FieldModel {
    /// The number of the field with the focus has a successor, and the kept texts
    /// are bounded.
    pub open spec fn wf(self) -> bool {
        &&& self.focused matches Some(f) ==> f < 255
        &&& self.undo.len() <= 50
    }

    /// The fields before any input.
    pub open spec fn unused(now: u64) -> FieldModel {
        FieldModel {
            edit_name: Seq::empty(),
            edit_address: Seq::empty(),
            pack_search: Seq::empty(),
            focused: None,
            all_selected: false,
            last_click_time: now,
            last_click: None,
            undo: Seq::empty(),
            cursor_blink: now,
        }
    }

    /// The fields after their screen was left: the texts stay, but no field has
    /// the focus and nothing is left to undo.
    pub open spec fn left(self, now: u64) -> FieldModel {
        FieldModel {
            focused: None,
            all_selected: false,
            last_click: None,
            undo: Seq::empty(),
            cursor_blink: now,
            ..self
        }
    }

    /// The fields with the focus on one of them.
    pub open spec fn focusing(self, field: u8) -> FieldModel {
        FieldModel { focused: Some(field), ..self }
    }
}

/// A text that a field edits.
#[derive(Clone, Copy, Debug, PartialEq, Eq, Structural)]
pub enum TextTarget {
    EditName,
    EditAddress,
    PackSearch,
}

/// The text that field `field` of a screen edits.
pub open spec fn target_of(screen: Screen, field: u8) -> Option<TextTarget> {
    match (screen, field) {
        (Screen::AddServer, 0u8) => Some(TextTarget::EditName),
        (Screen::AddServer, 1u8) => Some(TextTarget::EditAddress),
        (Screen::EditServer(_), 0u8) => Some(TextTarget::EditName),
        (Screen::EditServer(_), 1u8) => Some(TextTarget::EditAddress),
        (Screen::DirectConnect, 0u8) => Some(TextTarget::EditAddress),
        (Screen::OptionsResourcePacks, 0u8) => Some(TextTarget::PackSearch),
        _ => None,
    }
}

impl FieldModel {
    /// The text of a target.
    pub open spec fn text(self, target: TextTarget) -> Seq<char> {
        match target {
            TextTarget::EditName => self.edit_name,
            TextTarget::EditAddress => self.edit_address,
            TextTarget::PackSearch => self.pack_search,
        }
    }

    /// The fields with another text for a target.
    pub open spec fn with_text(self, target: TextTarget, text: Seq<char>) -> FieldModel {
        match target {
            TextTarget::EditName => FieldModel { edit_name: text, ..self },
            TextTarget::EditAddress => FieldModel { edit_address: text, ..self },
            TextTarget::PackSearch => FieldModel { pack_search: text, ..self },
        }
    }

    /// The fields after the tab key: the focus goes to the next of `count` fields,
    /// from the last to the first, and to the first from none.
    pub open spec fn tabbed(self, count: u8, now: u64) -> FieldModel {
        FieldModel {
            focused: Some(
                match self.focused {
                    Some(f) => ((f + 1) % (count as int)) as u8,
                    None => 0,
                },
            ),
            all_selected: false,
            cursor_blink: now,
            ..self
        }
    }

    /// The fields after the tab key, if it was pressed.
    pub open spec fn after_tab(self, tab: bool, count: u8, now: u64) -> FieldModel {
        if tab {
            self.tabbed(count, now)
        } else {
            self
        }
    }

    /// The text that the field with the focus edits.
    pub open spec fn target(self, screen: Screen) -> Option<TextTarget> {
        match self.focused {
            Some(field) => target_of(screen, field),
            None => None,
        }
    }

    /// The fields after a click into a field; a second click within a short time
    /// selects its text.
    pub open spec fn field_clicked(self, field: u8, now: u64) -> FieldModel {
        FieldModel {
            focused: Some(field),
            cursor_blink: now,
            all_selected: self.last_click == Some(field) && elapsed(
                self.last_click_time,
                now,
            ) < 400,
            last_click: Some(field),
            last_click_time: now,
            ..self
        }
    }
}

/// The place of the last text that was kept for `field` among the first `n`.
pub open spec fn last_kept(undo: Seq<(u8, Seq<char>)>, field: u8, n: nat) -> Option<int>
    decreases n,
{
    if n == 0 {
        None
    } else if undo[n - 1].0 == field {
        Some(n - 1)
    } else {
        last_kept(undo, field, (n - 1) as nat)
    }
}

/// The kept texts with one more; the oldest makes room for it.
pub open spec fn kept(
    undo: Seq<(u8, Seq<char>)>,
    field: u8,
    text: Seq<char>,
) -> Seq<(u8, Seq<char>)> {
    (if undo.len() >= 50 {
        undo.remove(0)
    } else {
        undo
    }).push((field, text))
}

/// A text and whether all of it is selected, after typing: what is selected is
/// replaced.
pub open spec fn typed(text: Seq<char>, selected: bool, chars: Seq<char>) -> (Seq<char>, bool) {
    if chars.len() == 0 {
        (text, selected)
    } else if selected {
        (chars, false)
    } else {
        (text + chars, false)
    }
}

/// A text and whether all of it is selected, after the backspace key: what is
/// selected goes, else the last character.
pub open spec fn erased(text: Seq<char>, selected: bool) -> (Seq<char>, bool) {
    if selected || text.len() == 0 {
        (Seq::empty(), false)
    } else {
        (text.drop_last(), false)
    }
}

impl FieldModel {
    /// The fields after an input to the field `field`, which edits `target`.
    pub open spec fn edited(
        self,
        field: u8,
        target: TextTarget,
        input: MenuInput,
        now: u64,
    ) -> FieldModel {
        let start = self.text(target);
        let cut = input.cut && start.len() > 0 && input.cut_written;
        let text = if cut {
            Seq::empty()
        } else {
            start
        };
        match last_kept(self.undo, field, self.undo.len()) {
            Some(at) if input.undo => FieldModel {
                undo: self.undo.remove(at),
                all_selected: false,
                cursor_blink: now,
                ..self.with_text(target, self.undo[at].1)
            },
            _ => {
                let selected = if input.select_all {
                    text.len() > 0
                } else {
                    self.all_selected && !cut
                };
                let (t1, s1) = typed(text, selected, input.typed_chars@);
                let (t2, s2) = if input.backspace {
                    erased(t1, s1)
                } else {
                    (t1, s1)
                };
                FieldModel {
                    all_selected: s2,
                    undo: if t2 != text {
                        kept(self.undo, field, text)
                    } else {
                        self.undo
                    },
                    cursor_blink: if t2 != text {
                        now
                    } else {
                        self.cursor_blink
                    },
                    ..self.with_text(target, t2)
                }
            },
        }
    }

    /// The fields after an input to its fields, of which there are `count`.
    pub open spec fn handled(
        self,
        screen: Screen,
        input: MenuInput,
        count: u8,
        now: u64,
    ) -> FieldModel {
        let fields = self.after_tab(input.tab, count, now);
        match fields.target(screen) {
            Some(target) => fields.edited(fields.focused.unwrap(), target, input, now),
            None => fields,
        }
    }

    /// The text that an input asks to be copied or cut, if any.
    pub open spec fn clipboard_text(
        self,
        screen: Screen,
        input: MenuInput,
        count: u8,
    ) -> Option<Seq<char>> {
        let fields = self.after_tab(input.tab, count, 0);
        match fields.target(screen) {
            Some(target) if (input.copy || input.cut) && fields.text(target).len() > 0 => Some(
                fields.text(target),
            ),
            _ => None,
        }
    }
}

/// The text that field `field` of a screen edits.
fn find_target(screen: &Screen, field: u8) -> (target: Option<TextTarget>)
    ensures
        target == target_of(*screen, field),
{
    match screen {
        Screen::AddServer | Screen::EditServer(_) => {
            if field == 0 {
                Some(TextTarget::EditName)
            } else if field == 1 {
                Some(TextTarget::EditAddress)
            } else {
                None
            }
        },
        Screen::DirectConnect => if field == 0 {
            Some(TextTarget::EditAddress)
        } else {
            None
        },
        Screen::OptionsResourcePacks => if field == 0 {
            Some(TextTarget::PackSearch)
        } else {
            None
        },
        _ => None,
    }
}

/// Keeps a text for undoing.
pub fn push_undo(stack: &mut Vec<(u8, String)>, field: u8, text: String)
    ensures
        undo_views(final(stack)@) == kept(undo_views(old(stack)@), field, text@),
        old(stack)@.len() <= 50 ==> final(stack)@.len() <= 50,
{
    let ghost before = undo_views(stack@);
    if stack.len() >= UNDO_STACK_LIMIT {
        let oldest = stack.remove(0);
        assert(undo_views(stack@) =~= before.remove(0));
    }
    let ghost held = undo_views(stack@);
    stack.push((field, text));
    assert(undo_views(stack@) =~= held.push((field, text@)));
}

/// The place of the last text that was kept for `field`.
fn find_kept(stack: &Vec<(u8, String)>, field: u8) -> (at: Option<usize>)
    ensures
        match at {
            Some(i) => i < stack@.len() && last_kept(
                undo_views(stack@),
                field,
                stack@.len(),
            ) == Some(i as int),
            None => last_kept(undo_views(stack@), field, stack@.len()) is None,
        },
{
    let mut i: usize = stack.len();
    while i > 0
        invariant
            i <= stack@.len(),
            last_kept(undo_views(stack@), field, stack@.len()) == last_kept(
                undo_views(stack@),
                field,
                i as nat,
            ),
        decreases i,
    {
        i = i - 1;
        if stack[i].0 == field {
            return Some(i);
        }
    }
    None
}

impl TextFields {
    pub open spec fn wf(&self) -> bool {
        self@.wf()
    }

    /// The fields before any input.
    pub fn new(now: u64) -> (fields: Self)
        ensures
            fields.wf(),
            fields@ == FieldModel::unused(now),
    {
        let fields = TextFields {
            edit_name: String::new(),
            edit_address: String::new(),
            pack_search: String::new(),
            focused: None,
            all_selected: false,
            last_click_time: now,
            last_click: None,
            undo_stack: Vec::new(),
            cursor_blink: now,
        };
        assert(fields@.undo =~= Seq::<(u8, Seq<char>)>::empty());
        fields
    }

    /// Leaves the fields' screen.
    pub fn leave(&mut self, now: u64)
        ensures
            final(self)@ == old(self)@.left(now),
    {
        self.focused = None;
        self.all_selected = false;
        self.last_click = None;
        self.undo_stack.clear();
        self.cursor_blink = now;
        assert(self@.undo =~= Seq::<(u8, Seq<char>)>::empty());
    }

    /// A copy of a target's text.
    fn text_copy(&self, target: TextTarget) -> (text: String)
        ensures
            text@ == self@.text(target),
    {
        match target {
            TextTarget::EditName => self.edit_name.clone(),
            TextTarget::EditAddress => self.edit_address.clone(),
            TextTarget::PackSearch => self.pack_search.clone(),
        }
    }

    /// Replaces a target's text.
    fn set_text(&mut self, target: TextTarget, text: String)
        ensures
            final(self)@ == old(self)@.with_text(target, text@),
            final(self).undo_stack@ == old(self).undo_stack@,
    {
        match target {
            TextTarget::EditName => self.edit_name = text,
            TextTarget::EditAddress => self.edit_address = text,
            TextTarget::PackSearch => self.pack_search = text,
        }
    }

    /// A click into a field.
    pub fn on_field_click(&mut self, field: u8, now: u64)
        requires
            old(self).wf(),
            field < 255,
        ensures
            final(self).wf(),
            final(self)@ == old(self)@.field_clicked(field, now),
    {
        let is_double: bool = match self.last_click {
            Some(f) => f == field && elapsed_ms(self.last_click_time, now) < DOUBLE_CLICK_MS,
            None => false,
        };
        self.focused = Some(field);
        self.cursor_blink = now;
        self.all_selected = is_double;
        self.last_click = Some(field);
        self.last_click_time = now;
    }

    /// The text that an input asks to be copied or cut, if any: that of the
    /// field that will have the focus, unless it is empty.
    pub fn clipboard_request(
        &self,
        screen: &Screen,
        input: &MenuInput,
        count: u8,
    ) -> (text: Option<String>)
        requires
            self.wf(),
            1 <= count,
        ensures
            match text {
                Some(t) => self@.clipboard_text(*screen, *input, count) == Some(t@),
                None => self@.clipboard_text(*screen, *input, count) is None,
            },
    {
        let focused: Option<u8> = if input.tab {
            Some(
                match self.focused {
                    Some(f) => (f + 1) % count,
                    None => 0,
                },
            )
        } else {
            self.focused
        };
        let field: u8 = match focused {
            Some(f) => f,
            None => {
                return None;
            },
        };
        match find_target(screen, field) {
            Some(target) => {
                let text = self.text_copy(target);
                if (input.copy || input.cut) && !text.as_str().is_empty() {
                    Some(text)
                } else {
                    None
                }
            },
            None => None,
        }
    }

    /// Restores the text that was kept last for a field, if there is one.
    /// Returns whether there was.
    fn undo_field(&mut self, field: u8, target: TextTarget, now: u64) -> (undone: bool)
        requires
            old(self).wf(),
        ensures
            final(self).wf(),
            match last_kept(old(self)@.undo, field, old(self)@.undo.len()) {
                Some(at) => undone && final(self)@ == (FieldModel {
                    undo: old(self)@.undo.remove(at),
                    all_selected: false,
                    cursor_blink: now,
                    ..old(self)@.with_text(target, old(self)@.undo[at].1)
                }),
                None => !undone && final(self)@ == old(self)@,
            },
    {
        match find_kept(&self.undo_stack, field) {
            Some(at) => {
                let ghost stack = self.undo_stack@;
                let kept_text = self.undo_stack.remove(at);
                assert(undo_views(self.undo_stack@) =~= undo_views(stack).remove(at as int));
                self.set_text(target, kept_text.1);
                self.all_selected = false;
                self.cursor_blink = now;
                true
            },
            None => false,
        }
    }

    /// An input to the field `field`, which edits `target`.
    fn edit_field(&mut self, field: u8, target: TextTarget, input: &MenuInput, now: u64)
        requires
            old(self).wf(),
        ensures
            final(self).wf(),
            final(self)@ == old(self)@.edited(field, target, *input, now),
    {
        let mut text = self.text_copy(target);
        if input.cut && !text.as_str().is_empty() && input.cut_written {
            text.clear();
            self.all_selected = false;
        }
        if input.undo && self.undo_field(field, target, now) {
            return ;
        }
        let selected: bool = if input.select_all {
            !text.as_str().is_empty()
        } else {
            self.all_selected
        };
        let before = text.clone();
        let (text, selected) = edit_chars(text, selected, input);
        self.all_selected = selected;
        let changed: bool = !same_text(text.as_str(), before.as_str());
        self.set_text(target, text);
        if changed {
            push_undo(&mut self.undo_stack, field, before);
            self.cursor_blink = now;
        }
    }

    /// An input to the fields of the screen, of which there are `count`: the tab
    /// key moves the focus; what is cut goes once it has reached the clipboard;
    /// undoing restores the text kept last for the field; typing and erasing
    /// change the text, and keep what it was before.
    pub fn handle_text_input(&mut self, screen: &Screen, input: &MenuInput, count: u8, now: u64)
        requires
            old(self).wf(),
            1 <= count,
        ensures
            final(self).wf(),
            final(self)@ == old(self)@.handled(*screen, *input, count, now),
    {
        if input.tab {
            self.focused = Some(
                match self.focused {
                    Some(f) => (f + 1) % count,
                    None => 0,
                },
            );
            self.all_selected = false;
            self.cursor_blink = now;
        }
        if let Some(field) = self.focused {
            if let Some(target) = find_target(screen, field) {
                self.edit_field(field, target, input, now);
            }
        }
    }
}

/// A text and whether all of it is selected, after typing and erasing.
fn edit_chars(start: String, start_selected: bool, input: &MenuInput) -> (edited: (String, bool))
    ensures
        (edited.0@, edited.1) == ({
            let (t, s) = typed(start@, start_selected, input.typed_chars@);
            if input.backspace {
                erased(t, s)
            } else {
                (t, s)
            }
        }),
{
    let mut text = start;
    let mut selected: bool = start_selected;
    if input.typed_chars.len() > 0 {
        if selected {
            text.clear();
            selected = false;
        }
        let ghost base = text@;
        let mut i: usize = 0;
        assert(text@ =~= base + input.typed_chars@.take(0));
        while i < input.typed_chars.len()
            invariant
                i <= input.typed_chars@.len(),
                text@ == base + input.typed_chars@.take(i as int),
            decreases input.typed_chars@.len() - i,
        {
            text.push(input.typed_chars[i]);
            i = i + 1;
            assert(text@ =~= base + input.typed_chars@.take(i as int));
        }
        assert(input.typed_chars@.take(i as int) =~= input.typed_chars@);
        assert(start_selected ==> text@ =~= input.typed_chars@);
    }
    assert((text@, selected) == typed(start@, start_selected, input.typed_chars@));
    if input.backspace {
        let ghost (t, s) = (text@, selected);
        if selected {
            text.clear();
            selected = false;
        } else {
            let last = text.pop();
            assert(t.len() == 0 ==> text@ =~= Seq::<char>::empty());
        }
        assert((text@, selected) == erased(t, s));
    }
    (text, selected)
}

/// Undoing restores a field's text: after an input that changed it, undoing
/// brings back the text from before and, unless the oldest kept text had to
/// make room, the kept texts too.
pub proof fn undo_restores_the_text(
    fields: FieldModel,
    field: u8,
    target: TextTarget,
    input: MenuInput,
    undo: MenuInput,
    now: u64,
    later: u64,
)
    requires
        fields.wf(),
        !input.undo,
        !input.cut,
        fields.edited(field, target, input, now).text(target) != fields.text(target),
        undo.undo,
        !undo.cut,
    ensures
        ({
            let changed = fields.edited(field, target, input, now);
            let back = changed.edited(field, target, undo, later);
            &&& back.text(target) == fields.text(target)
            &&& fields.undo.len() < 50 ==> back.undo == fields.undo
        }),
{
    let changed = fields.edited(field, target, input, now);
    assert(changed.undo == kept(fields.undo, field, fields.text(target)));
    let n = changed.undo.len();
    assert(changed.undo[n - 1] == (field, fields.text(target)));
    assert(last_kept(changed.undo, field, n) == Some(n - 1));
    if fields.undo.len() < 50 {
        assert(changed.undo.remove(n - 1) =~= fields.undo);
    }
}

/// The kept texts never outgrow their bound.
pub proof fn kept_texts_are_bounded(
    fields: FieldModel,
    screen: Screen,
    input: MenuInput,
    count: u8,
    now: u64,
)
    requires
        fields.wf(),
        1 <= count,
    ensures
        fields.handled(screen, input, count, now).undo.len() <= 50,
{
    let tabbed = fields.after_tab(input.tab, count, now);
    if let Some(target) = tabbed.target(screen) {
        let field = tabbed.focused.unwrap();
        if let Some(at) = last_kept(tabbed.undo, field, tabbed.undo.len()) {
            lemma_last_kept_in_range(tabbed.undo, field, tabbed.undo.len());
        }
    }
}

proof fn lemma_last_kept_in_range(undo: Seq<(u8, Seq<char>)>, field: u8, n: nat)
    ensures
        last_kept(undo, field, n) matches Some(at) ==> 0 <= at < n,
    decreases n,
{
    if n > 0 {
        lemma_last_kept_in_range(undo, field, (n - 1) as nat);
    }
}

} // verus!
