//! What holds of typing into the fields of the menu.

use crate::menu::fields::{kept, last_kept, FieldModel};
use crate::menu::state::{MenuInput, Screen};
use vstd::prelude::*;

verus! {

/// Whether a screen is a form with a name and an address.
pub open spec fn is_form(screen: Screen) -> bool {
    screen is AddServer || screen is EditServer
}

/// Whether the field with the focus edits the name of a server.
pub open spec fn edits_name(screen: Screen, focused: Option<u8>) -> bool {
    is_form(screen) && focused == Some(0u8)
}

/// Whether the field with the focus edits the address of a server.
pub open spec fn edits_address(screen: Screen, focused: Option<u8>) -> bool {
    (is_form(screen) && focused == Some(1u8)) || (screen is DirectConnect && focused == Some(0u8))
}

/// Whether the field with the focus edits the search for resource packs.
pub open spec fn edits_search(screen: Screen, focused: Option<u8>) -> bool {
    screen is OptionsResourcePacks && focused == Some(0u8)
}

/// What typing makes of a text: what was typed stands at its end, or in its place
/// where all of it was selected; the backspace key then takes the last character.
/// The backspace key alone takes what was selected, or else the last character.
pub open spec fn is_typed(
    before: Seq<char>,
    selected: bool,
    input: MenuInput,
    after: Seq<char>,
) -> bool {
    let typed = input.typed_chars@;
    if typed.len() > 0 {
        let whole = if selected {
            typed
        } else {
            before + typed
        };
        if input.backspace {
            after == whole.take(whole.len() - 1)
        } else {
            after == whole
        }
    } else if input.backspace {
        if selected || before.len() == 0 {
            after.len() == 0
        } else {
            after == before.take(before.len() - 1)
        }
    } else {
        after == before
    }
}

/// An input changes the text of the field that has the focus, and no other. What is
/// typed and erased is typed and erased there.
pub proof fn typing_goes_to_the_field_with_the_focus(
    fields: FieldModel,
    screen: Screen,
    input: MenuInput,
    count: u8,
    now: u64,
)
    requires
        !input.tab,
        !input.undo,
        !input.cut,
        !input.select_all,
    ensures
        ({
            let after = fields.handled(screen, input, count, now);
            let selected = fields.all_selected;
            &&& after.focused == fields.focused
            &&& if edits_name(screen, fields.focused) {
                is_typed(fields.edit_name, selected, input, after.edit_name)
            } else {
                after.edit_name == fields.edit_name
            }
            &&& if edits_address(screen, fields.focused) {
                is_typed(fields.edit_address, selected, input, after.edit_address)
            } else {
                after.edit_address == fields.edit_address
            }
            &&& if edits_search(screen, fields.focused) {
                is_typed(fields.pack_search, selected, input, after.pack_search)
            } else {
                after.pack_search == fields.pack_search
            }
            &&& input.typed_chars@.len() > 0 && (edits_name(screen, fields.focused)
                || edits_address(screen, fields.focused) || edits_search(screen, fields.focused))
                ==> !after.all_selected
        }),
{
    let typed = input.typed_chars@;
    assert forall|t: Seq<char>| t.len() > 0 implies #[trigger] t.drop_last() == t.take(
        t.len() - 1,
    ) by {
        assert(t.drop_last() =~= t.take(t.len() - 1));
    }
    if typed.len() > 0 {
        assert((fields.edit_name + typed).len() > 0);
    }
}

/// Select All marks the text of the field with the focus, if there is any; what is
/// typed next replaces it.
pub proof fn what_is_selected_is_replaced(
    fields: FieldModel,
    screen: Screen,
    marking: MenuInput,
    typing: MenuInput,
    count: u8,
    now: u64,
    later: u64,
)
    requires
        edits_name(screen, fields.focused) || edits_address(screen, fields.focused) || edits_search(
            screen,
            fields.focused,
        ),
        marking.select_all,
        !marking.tab,
        !marking.undo,
        !marking.cut,
        !marking.backspace,
        marking.typed_chars@.len() == 0,
        typing.typed_chars@.len() > 0,
        !typing.select_all,
        !typing.tab,
        !typing.undo,
        !typing.cut,
        !typing.backspace,
    ensures
        ({
            let marked = fields.handled(screen, marking, count, now);
            let after = marked.handled(screen, typing, count, later);
            &&& marked.edit_name == fields.edit_name
            &&& marked.edit_address == fields.edit_address
            &&& marked.pack_search == fields.pack_search
            &&& edits_name(screen, fields.focused) ==> after.edit_name == typing.typed_chars@
                && marked.all_selected == (fields.edit_name.len() > 0)
            &&& edits_address(screen, fields.focused) ==> after.edit_address == typing.typed_chars@
                && marked.all_selected == (fields.edit_address.len() > 0)
            &&& edits_search(screen, fields.focused) ==> after.pack_search == typing.typed_chars@
                && marked.all_selected == (fields.pack_search.len() > 0)
        }),
{
    assert(Seq::<char>::empty() + typing.typed_chars@ =~= typing.typed_chars@);
    if fields.edit_name.len() == 0 {
        assert(fields.edit_name =~= Seq::empty());
    }
    if fields.edit_address.len() == 0 {
        assert(fields.edit_address =~= Seq::empty());
    }
    if fields.pack_search.len() == 0 {
        assert(fields.pack_search =~= Seq::empty());
    }
}

/// Cutting empties the field with the focus once the text has reached the
/// clipboard, and not before.
pub proof fn cutting_empties_the_field(
    fields: FieldModel,
    screen: Screen,
    input: MenuInput,
    count: u8,
    now: u64,
)
    requires
        input.cut,
        !input.tab,
        !input.undo,
        !input.select_all,
        !input.backspace,
        input.typed_chars@.len() == 0,
    ensures
        ({
            let after = fields.handled(screen, input, count, now);
            &&& after.edit_name == if edits_name(screen, fields.focused) && input.cut_written {
                Seq::empty()
            } else {
                fields.edit_name
            }
            &&& after.edit_address == if edits_address(screen, fields.focused)
                && input.cut_written {
                Seq::empty()
            } else {
                fields.edit_address
            }
            &&& after.pack_search == if edits_search(screen, fields.focused) && input.cut_written {
                Seq::empty()
            } else {
                fields.pack_search
            }
        }),
{
    if fields.edit_name.len() == 0 {
        assert(fields.edit_name =~= Seq::empty());
    }
    if fields.edit_address.len() == 0 {
        assert(fields.edit_address =~= Seq::empty());
    }
    if fields.pack_search.len() == 0 {
        assert(fields.pack_search =~= Seq::empty());
    }
}

/// Copying and cutting hand out the text of the field with the focus; nothing is
/// handed out where it is empty, or where neither was asked for.
pub proof fn copies_are_of_the_field_with_the_focus(
    fields: FieldModel,
    screen: Screen,
    input: MenuInput,
    count: u8,
)
    requires
        !input.tab,
    ensures
        ({
            let copied = fields.clipboard_text(screen, input, count);
            let asked = input.copy || input.cut;
            &&& edits_name(screen, fields.focused) && asked && fields.edit_name.len() > 0 ==> copied
                == Some(fields.edit_name)
            &&& edits_address(screen, fields.focused) && asked && fields.edit_address.len() > 0
                ==> copied == Some(fields.edit_address)
            &&& edits_search(screen, fields.focused) && asked && fields.pack_search.len() > 0
                ==> copied == Some(fields.pack_search)
            &&& !asked ==> copied is None
            &&& (copied matches Some(text) ==> text.len() > 0)
        }),
{
}

/// The tab key moves the focus to the next field, from the last to the first, and
/// to the first where there was none; what is typed with it goes there.
pub proof fn tab_moves_the_focus(
    fields: FieldModel,
    screen: Screen,
    input: MenuInput,
    count: u8,
    now: u64,
)
    requires
        fields.wf(),
        input.tab,
        count >= 1,
        fields.focused matches Some(f) ==> f < count,
    ensures
        ({
            let after = fields.handled(screen, input, count, now);
            match fields.focused {
                None => after.focused == Some(0u8),
                Some(f) => if f == count - 1 {
                    after.focused == Some(0u8)
                } else {
                    after.focused == Some((f + 1) as u8)
                },
            }
        }),
{
    if let Some(f) = fields.focused {
        let c = count as int;
        if f + 1 < c {
            assert((f + 1) % c == f + 1) by (nonlinear_arith)
                requires
                    0 <= f + 1 < c,
            ;
        } else {
            assert(f + 1 == c);
            assert(c % c == 0) by (nonlinear_arith)
                requires
                    c > 0,
            ;
        }
    }
}

/// A click gives a field the focus. A second click on the same field within four
/// tenths of a second selects its text; no other click does. Clicks change no
/// text.
pub proof fn a_second_click_selects(fields: FieldModel, field: u8, now: u64, then: u64)
    requires
        fields.last_click != Some(field),
        now <= then,
    ensures
        ({
            let first = fields.field_clicked(field, now);
            let second = first.field_clicked(field, then);
            &&& first.focused == Some(field)
            &&& !first.all_selected
            &&& second.focused == Some(field)
            &&& second.all_selected == (then - now < 400)
            &&& second.edit_name == fields.edit_name
            &&& second.edit_address == fields.edit_address
            &&& second.pack_search == fields.pack_search
        }),
{
}

/// Texts are kept in their order; past fifty the oldest goes.
pub proof fn the_oldest_text_makes_room(undo: Seq<(u8, Seq<char>)>, field: u8, text: Seq<char>)
    requires
        undo.len() <= 50,
    ensures
        ({
            let after = kept(undo, field, text);
            &&& after.last() == (field, text)
            &&& undo.len() < 50 ==> after.drop_last() == undo
            &&& undo.len() == 50 ==> after.len() == 50 && after.drop_last() == undo.skip(1)
        }),
{
    let after = kept(undo, field, text);
    if undo.len() < 50 {
        assert(after.drop_last() =~= undo);
    } else {
        assert(after.drop_last() =~= undo.skip(1));
    }
}

/// Undoing brings back the last text that was kept for the field: no later one was
/// kept for it.
pub proof fn the_last_kept_text_is_found(undo: Seq<(u8, Seq<char>)>, field: u8, n: nat)
    requires
        n <= undo.len(),
    ensures
        match last_kept(undo, field, n) {
            Some(at) => 0 <= at < n && undo[at].0 == field && forall|k: int|
                at < k < n ==> (#[trigger] undo[k]).0 != field,
            None => forall|k: int| 0 <= k < n ==> (#[trigger] undo[k]).0 != field,
        },
    decreases n,
{
    if n > 0 && undo[n - 1].0 != field {
        the_last_kept_text_is_found(undo, field, (n - 1) as nat);
    }
}

} // verus!
