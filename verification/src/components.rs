//! Chat components: what a component of the `azalea_chat` crate holds, which
//! components can be walked through and displayed, and the two calls that do
//! so.

use crate::strings::text_chars;
use crate::text::{event_views, EventView, Style, TextEvent};
use azalea_chat::translatable_component::PrimitiveOrComponent;
use azalea_chat::FormattedText;
use vstd::prelude::*;

verus! {

/// A chat component: its own style, what it says, and the components that
/// follow it.
pub struct ComponentView {
    pub style: Style,
    pub content: ContentView,
    pub siblings: Seq<ComponentView>,
}

/// What a component says: a text, or a translation, which is found by its key
/// and falls back on a text where there is none.
pub enum ContentView {
    Text(Seq<char>),
    Translatable { key: Seq<char>, fallback: Option<Seq<char>>, args: Seq<ArgumentView> },
}

/// An argument of a translation: a component, or a value by the text that it
/// displays as.
pub enum ArgumentView {
    Text(Seq<char>),
    Component(ComponentView),
}

/// A chat component of the `azalea_chat` crate: a tree of texts and styles.
#[verifier::external_type_specification]
#[verifier::external_body]
pub struct ExFormattedText(azalea_chat::FormattedText);

/// An argument of a translation, of the `azalea_chat` crate.
#[verifier::external_type_specification]
#[verifier::external_body]
pub struct ExPrimitiveOrComponent(azalea_chat::translatable_component::PrimitiveOrComponent);

/// What a component holds.
pub uninterp spec fn component_tree(text: FormattedText) -> ComponentView;

/// What an argument of a translation holds.
pub uninterp spec fn argument_tree(arg: PrimitiveOrComponent) -> ArgumentView;

/// What some components hold.
pub open spec fn component_trees(texts: Seq<FormattedText>) -> Seq<ComponentView> {
    Seq::new(texts.len(), |i: int| component_tree(texts[i]))
}

/// What some arguments hold.
pub open spec fn argument_trees(args: Seq<PrimitiveOrComponent>) -> Seq<ArgumentView> {
    Seq::new(args.len(), |i: int| argument_tree(args[i]))
}

/// A text that may be missing, as characters.
pub open spec fn optional_view(text: Option<String>) -> Option<Seq<char>> {
    match text {
        Some(t) => Some(t@),
        None => None,
    }
}

/// The English text of a translation key.
pub uninterp spec fn translation(key: Seq<char>) -> Option<Seq<char>>;

/// The text that a translation starts from.
pub open spec fn template_of(key: Seq<char>, fallback: Option<Seq<char>>) -> Seq<char> {
    match translation(key) {
        Some(text) => text,
        None => match fallback {
            Some(text) => text,
            None => key,
        },
    }
}

/// What filling in a template comes to.
#[derive(Clone, Copy, Debug, PartialEq, Eq, Structural)]
pub enum Reading {
    /// Every argument that it asks for is filled in.
    Whole,
    /// It is given up at a percent sign and a digit that no `$s` follows.
    Malformed,
    /// It asks for the argument by the number zero, or for one that cannot be
    /// displayed, which stops the program.
    Fatal,
}

/// What filling in `template` from character `i` on comes to, after `used`
/// arguments were taken in turn. `shown` says of each argument whether it can be
/// displayed.
pub open spec fn reading(template: Seq<char>, shown: Seq<bool>, i: int, used: int) -> Reading
    decreases template.len() - i,
{
    if i < 0 || i >= template.len() {
        Reading::Whole
    } else if template[i] != '%' || i + 1 >= template.len() {
        reading(template, shown, i + 1, used)
    } else {
        let next = template[i + 1];
        if next == '%' {
            reading(template, shown, i + 2, used)
        } else if next == 's' {
            if used < shown.len() && !shown[used] {
                Reading::Fatal
            } else {
                reading(template, shown, i + 2, used + 1)
            }
        } else if '0' <= next <= '9' {
            let digit = next as int - '0' as int;
            if i + 3 >= template.len() || template[i + 2] != '$' || template[i + 3] != 's' {
                Reading::Malformed
            } else if digit == 0 || (digit <= shown.len() && !shown[digit - 1]) {
                Reading::Fatal
            } else {
                reading(template, shown, i + 4, used)
            }
        } else {
            reading(template, shown, i + 1, used)
        }
    }
}

/// Whether what a component says can be read. A malformed template counts only
/// where `strict` is not set.
pub open spec fn content_reads(content: ContentView, strict: bool) -> bool
    decreases content, 0int, 0int,
{
    match content {
        ContentView::Text(_) => true,
        ContentView::Translatable { key, fallback, args } => match reading(
            template_of(key, fallback),
            args_shown(args, args.len()),
            0,
            0,
        ) {
            Reading::Whole => true,
            Reading::Malformed => !strict,
            Reading::Fatal => false,
        },
    }
}

/// Of each of the first `n` arguments, whether it can be displayed.
pub open spec fn args_shown(args: Seq<ArgumentView>, n: nat) -> Seq<bool>
    decreases args, 0int, n,
{
    if n == 0 || n > args.len() {
        Seq::empty()
    } else {
        args_shown(args, (n - 1) as nat).push(argument_shown(args[n - 1]))
    }
}

/// Whether an argument can be displayed.
pub open spec fn argument_shown(arg: ArgumentView) -> bool
    decreases arg, 0int, 0int,
{
    match arg {
        ArgumentView::Text(_) => true,
        ArgumentView::Component(tree) => displayable(tree),
    }
}

/// Whether a component and all that follow it can be read.
pub open spec fn tree_reads(tree: ComponentView, strict: bool) -> bool
    decreases tree, 1int, 0int,
{
    content_reads(tree.content, strict) && siblings_read(tree.siblings, tree.siblings.len(), strict)
}

/// Whether the first `n` of some components, and all that follow them, can be
/// read.
pub open spec fn siblings_read(siblings: Seq<ComponentView>, n: nat, strict: bool) -> bool
    decreases siblings, 0int, n,
{
    n == 0 || n > siblings.len() || (siblings_read(siblings, (n - 1) as nat, strict) && tree_reads(
        siblings[n - 1],
        strict,
    ))
}

/// Whether a component can be displayed. One that starts with a text hands on a
/// malformed template as an error; one that starts with a translation shows the
/// key in its place.
pub open spec fn displayable(tree: ComponentView) -> bool
    decreases tree, 2int, 0int,
{
    tree_reads(tree, tree.content is Text)
}

/// Whether a component can be walked through: a malformed template is shown by
/// its key.
pub open spec fn walkable(tree: ComponentView) -> bool {
    tree_reads(tree, false)
}

/// Whether no translation is in a component.
pub open spec fn is_plain(tree: ComponentView) -> bool
    decreases tree,
{
    tree.content is Text && forall|i: int|
        0 <= i < tree.siblings.len() ==> is_plain(#[trigger] tree.siblings[i])
}

/// A component without translations can be walked through and displayed.
pub proof fn plain_components_can_be_shown(tree: ComponentView)
    requires
        is_plain(tree),
    ensures
        walkable(tree),
        displayable(tree),
{
    lemma_plain_tree_reads(tree, true);
    lemma_plain_tree_reads(tree, false);
}

proof fn lemma_plain_tree_reads(tree: ComponentView, strict: bool)
    requires
        is_plain(tree),
    ensures
        tree_reads(tree, strict),
    decreases tree, 1int, 0int,
{
    lemma_plain_siblings_read(tree.siblings, tree.siblings.len(), strict);
}

proof fn lemma_plain_siblings_read(siblings: Seq<ComponentView>, n: nat, strict: bool)
    requires
        n <= siblings.len(),
        forall|i: int| 0 <= i < siblings.len() ==> is_plain(#[trigger] siblings[i]),
    ensures
        siblings_read(siblings, n, strict),
    decreases siblings, 0int, n,
{
    if n > 0 {
        lemma_plain_siblings_read(siblings, (n - 1) as nat, strict);
        lemma_plain_tree_reads(siblings[n - 1], strict);
    }
}

/// The components that follow a component: the `siblings` of
/// `FormattedText::get_base`.
#[verifier::external_body]
fn component_siblings(text: &FormattedText) -> (siblings: &Vec<FormattedText>)
    ensures
        component_trees(siblings@) == component_tree(*text).siblings,
{
    &text.get_base().siblings
}

/// The key, the fallback and the arguments of a component that is a
/// `FormattedText::Translatable`; nothing of one that is a `FormattedText::Text`.
#[verifier::external_body]
fn translatable_parts(text: &FormattedText) -> (parts: Option<
    (&String, &Option<String>, &Vec<PrimitiveOrComponent>),
>)
    ensures
        match parts {
            Some((key, fallback, args)) => component_tree(*text).content
                == (ContentView::Translatable {
                key: key@,
                fallback: optional_view(*fallback),
                args: argument_trees(args@),
            }),
            None => component_tree(*text).content is Text,
        },
{
    match text {
        FormattedText::Translatable(c) => Some((&c.key, &c.fallback, &c.args)),
        FormattedText::Text(_) => None,
    }
}

/// The component that an argument is, where it is a
/// `PrimitiveOrComponent::FormattedText`; nothing where it is one of the other
/// variants, which hold a truth value, a number or a string.
#[verifier::external_body]
fn argument_component(arg: &PrimitiveOrComponent) -> (component: Option<&FormattedText>)
    ensures
        match component {
            Some(text) => argument_tree(*arg) == ArgumentView::Component(component_tree(*text)),
            None => argument_tree(*arg) is Text,
        },
{
    match arg {
        PrimitiveOrComponent::FormattedText(text) => Some(text),
        _ => None,
    }
}

/// Looks a translation key up with `azalea_language::get`, in the English texts
/// that the crate carries. The contract claims that the answer depends on the
/// key alone.
#[verifier::external_body]
fn translate(key: &String) -> (text: Option<String>)
    ensures
        optional_view(text) == translation(key@),
{
    azalea_language::get(key).map(str::to_owned)
}

/// What filling in a template comes to, given of each argument whether it can
/// be displayed.
pub fn template_reading(template: &Vec<char>, shown: &Vec<bool>) -> (outcome: Reading)
    ensures
        outcome == reading(template@, shown@, 0, 0),
{
    let mut i: usize = 0;
    let mut used: usize = 0;
    while i < template.len()
        invariant
            i <= template@.len(),
            used <= i,
            reading(template@, shown@, 0, 0) == reading(template@, shown@, i as int, used as int),
        decreases template@.len() - i,
    {
        if template[i] != '%' || template.len() - i < 2 {
            i = i + 1;
        } else if template[i + 1] == '%' {
            i = i + 2;
        } else if template[i + 1] == 's' {
            if used < shown.len() && !shown[used] {
                return Reading::Fatal;
            }
            i = i + 2;
            used = used + 1;
        } else if '0' <= template[i + 1] && template[i + 1] <= '9' {
            if template.len() - i < 4 || template[i + 2] != '$' || template[i + 3] != 's' {
                return Reading::Malformed;
            }
            let digit: usize = template[i + 1] as usize - '0' as usize;
            if digit == 0 || (digit - 1 < shown.len() && !shown[digit - 1]) {
                return Reading::Fatal;
            }
            i = i + 4;
        } else {
            i = i + 1;
        }
    }
    Reading::Whole
}

/// Whether what a component says can be read.
fn read_content(text: &FormattedText, strict: bool) -> (reads: bool)
    ensures
        reads == content_reads(component_tree(*text).content, strict),
    decreases component_tree(*text).content, 0int, 0int,
{
    match translatable_parts(text) {
        None => true,
        Some((key, fallback, args)) => {
            let template = match translate(key) {
                Some(found) => found,
                None => match fallback {
                    Some(other) => other.clone(),
                    None => key.clone(),
                },
            };
            let mut shown: Vec<bool> = Vec::new();
            let mut n: usize = 0;
            let ghost views = argument_trees(args@);
            while n < args.len()
                invariant
                    n <= args@.len(),
                    views == argument_trees(args@),
                    component_tree(*text).content
                        == (ContentView::Translatable {
                        key: key@,
                        fallback: optional_view(*fallback),
                        args: views,
                    }),
                    shown@ == args_shown(views, n as nat),
                decreases args@.len() - n,
            {
                let ghost tree = component_tree(*text).content;
                let ghost view = views[n as int];
                assert(view == argument_tree(args@[n as int]));
                proof {
                    assert(decreases_to!(tree => tree->args));
                    assert(decreases_to!(tree->args => tree->args[n as int]));
                    if view is Component {
                        assert(decreases_to!(view => view->Component_0));
                    }
                    assert(args_shown(views, (n + 1) as nat) == args_shown(views, n as nat).push(
                        argument_shown(view),
                    ));
                }
                let can: bool = match argument_component(&args[n]) {
                    Some(inner) => can_display(inner),
                    None => true,
                };
                shown.push(can);
                n = n + 1;
            }
            let chars = text_chars(template.as_str());
            match template_reading(&chars, &shown) {
                Reading::Whole => true,
                Reading::Malformed => !strict,
                Reading::Fatal => false,
            }
        },
    }
}

/// Whether a component and all that follow it can be read.
fn read_tree(text: &FormattedText, strict: bool) -> (reads: bool)
    ensures
        reads == tree_reads(component_tree(*text), strict),
    decreases component_tree(*text), 1int, 0int,
{
    let mut reads: bool = read_content(text, strict);
    let siblings = component_siblings(text);
    let ghost tree = component_tree(*text);
    let mut n: usize = 0;
    while n < siblings.len()
        invariant
            n <= siblings@.len(),
            tree == component_tree(*text),
            component_trees(siblings@) == tree.siblings,
            reads == (content_reads(tree.content, strict) && siblings_read(
                tree.siblings,
                n as nat,
                strict,
            )),
        decreases siblings@.len() - n,
    {
        assert(tree.siblings[n as int] == component_tree(siblings@[n as int]));
        reads = read_tree(&siblings[n], strict) && reads;
        n = n + 1;
    }
    reads
}

/// Whether a component can be displayed.
pub(crate) fn can_display(text: &FormattedText) -> (can: bool)
    ensures
        can == displayable(component_tree(*text)),
    decreases component_tree(*text), 2int, 0int,
{
    let plain: bool = translatable_parts(text).is_none();
    read_tree(text, plain)
}

/// Whether a component can be walked through.
pub(crate) fn can_walk(text: &FormattedText) -> (can: bool)
    ensures
        can == walkable(component_tree(*text)),
{
    read_tree(text, false)
}

/// The steps in which `FormattedText::to_custom_format` walks through a
/// component.
pub uninterp spec fn component_steps(tree: ComponentView) -> Seq<EventView>;

/// The text that a component displays as.
pub uninterp spec fn component_text(tree: ComponentView) -> Seq<char>;

/// Walks through a component with `FormattedText::to_custom_format`, starting
/// from an empty style, and records what it is told: a style for each call of
/// the style formatter, and a text for each call of the text formatter. The
/// contract claims that the steps depend on what the component holds alone. It
/// leaves out the components on which `TranslatableComponent::read` stops the
/// program: those whose translations ask for an argument by the number zero, or
/// for a component whose `Display` gives an error. How deeply a component may be
/// nested is left unsaid: the walk follows the nesting on the stack.
#[verifier::external_body]
pub(crate) fn walk_component(text: &FormattedText) -> (events: Vec<TextEvent>)
    requires
        walkable(component_tree(*text)),
    ensures
        event_views(events@) == component_steps(component_tree(*text)),
{
    let events = std::cell::RefCell::new(Vec::new());
    let told = |event: TextEvent| events.borrow_mut().push(event);
    text.to_custom_format(
        |_, s| {
            let color = s.color.as_ref().map(|color| color.value);
            let (bold, italic) = (s.bold, s.italic);
            let (strikethrough, underlined) = (s.strikethrough, s.underlined);
            told(TextEvent::Style(Style { color, bold, italic, strikethrough, underlined }));
            Default::default()
        },
        |piece| { told(TextEvent::Text(piece.to_owned())); String::new() },
        |_| String::new(),
        &Default::default(),
    );
    events.into_inner()
}

/// The text that a component displays as, by its `Display`. The contract claims
/// that it depends on what the component holds alone. It leaves out the
/// components that cannot be displayed: those that `walk_component` leaves out,
/// and a text that a translation follows whose template
/// `TranslatableComponent::read` gives up on, since its `Display` hands that
/// error on. As for `walk_component`, the depth of the nesting is left unsaid.
#[verifier::external_body]
pub(crate) fn display_component(text: &FormattedText) -> (plain: String)
    requires
        displayable(component_tree(*text)),
    ensures
        plain@ == component_text(component_tree(*text)),
{
    format!("{text}")
}

/// Whether a mark at place `k` names an argument by its number.
pub open spec fn is_numbered(template: Seq<char>, k: int) -> bool {
    0 <= k && k + 1 < template.len() && template[k] == '%' && '0' <= template[k + 1] <= '9'
}

/// A template is read whole unless a mark in it cannot be: it is malformed only
/// where a number is not followed by its ending, and it fails only where an argument
/// cannot be shown or a mark asks for argument 0.
pub proof fn templates_fail_for_a_reason(template: Seq<char>, shown: Seq<bool>, i: int, used: int)
    requires
        0 <= i,
        0 <= used,
    ensures
        reading(template, shown, i, used) is Malformed ==> exists|k: int| #[trigger]
            is_numbered(template, k) && i <= k && (k + 3 >= template.len() || template[k + 2] != '$'
                || template[k + 3] != 's'),
        reading(template, shown, i, used) is Fatal ==> (exists|k: int| #[trigger]
            is_numbered(template, k) && i <= k && template[k + 1] == '0') || (exists|a: int|
            0 <= a < shown.len() && !#[trigger] shown[a]),
    decreases template.len() - i,
{
    if i < template.len() {
        if template[i] != '%' || i + 1 >= template.len() {
            templates_fail_for_a_reason(template, shown, i + 1, used);
        } else {
            let next = template[i + 1];
            if next == '%' {
                templates_fail_for_a_reason(template, shown, i + 2, used);
            } else if next == 's' {
                if used < shown.len() && !shown[used] {
                } else {
                    templates_fail_for_a_reason(template, shown, i + 2, used + 1);
                }
            } else if '0' <= next <= '9' {
                let digit = next as int - '0' as int;
                assert(is_numbered(template, i));
                if i + 3 >= template.len() || template[i + 2] != '$' || template[i + 3] != 's' {
                } else if digit == 0 {
                } else if digit <= shown.len() && !shown[digit - 1] {
                } else {
                    templates_fail_for_a_reason(template, shown, i + 4, used);
                }
            } else {
                templates_fail_for_a_reason(template, shown, i + 1, used);
            }
        }
    }
}

} // verus!
