//! What to present to the user, and how it is rendered into a response
//! description made of plain values (the one place that decides how a
//! screen looks on the wire).

use vstd::prelude::*;

use crate::route::{encode_spec, Route};

verus! {

/// What to present to the user in response to an interaction.
#[derive(Debug, Clone)]
pub enum Screen {
    /// A row of buttons, each routing somewhere when clicked.
    Buttons { prompt: Option<String>, controls: Vec<Control> },
    /// A single-select dropdown. Chosen values arrive back in `Input::selected`.
    Select { route: Route, placeholder: String, options: Vec<Choice> },
    /// A modal form. Submitted values arrive back in the input's fields.
    Form { route: Route, title: String, fields: Vec<Field> },
    /// A terminal text reply.
    Message(String),
}

/// A button: a label, a visual style, and where clicking it goes.
#[derive(Debug, Clone)]
pub struct Control {
    pub label: String,
    pub style: Style,
    pub route: Route,
}

/// One option in a select menu.
#[derive(Debug, Clone)]
pub struct Choice {
    pub label: String,
    pub value: String,
}

/// One field in a modal form. `id` keys the value back out of the input.
#[derive(Debug, Clone)]
pub struct Field {
    pub id: String,
    pub label: String,
    pub value: String,
    pub placeholder: Option<String>,
    pub multiline: bool,
}

/// Button styling.
#[derive(Debug, Clone, Copy, PartialEq, Eq)]
pub enum Style {
    Primary,
    Secondary,
    Danger,
}

/// How a text input is drawn: one line or several.
#[derive(Debug, Clone, Copy, PartialEq, Eq)]
pub enum TextStyle {
    Short,
    Paragraph,
}

/// A button as sent: its `custom_id`, label and style.
#[derive(Debug)]
pub struct Button {
    pub custom_id: String,
    pub label: String,
    pub style: Style,
}

/// One option of a select menu as sent.
#[derive(Debug)]
pub struct SelectOption {
    pub label: String,
    pub value: String,
}

/// A string select menu as sent.
#[derive(Debug)]
pub struct SelectMenu {
    pub custom_id: String,
    pub options: Vec<SelectOption>,
    pub placeholder: Option<String>,
}

/// A text input of a modal as sent. The constructor order of the wire API
/// is (style, label, custom_id).
#[derive(Debug)]
pub struct TextInput {
    pub style: TextStyle,
    pub label: String,
    pub custom_id: String,
    pub value: Option<String>,
    pub placeholder: Option<String>,
}

/// One row of components.
#[derive(Debug)]
pub enum ActionRow {
    Buttons(Vec<Button>),
    SelectMenu(SelectMenu),
    InputText(TextInput),
}

/// A message reply: whether only the user sees it, its text, and its rows
/// of components (`None` when no components are set).
#[derive(Debug)]
pub struct MessageReply {
    pub ephemeral: bool,
    pub content: Option<String>,
    pub rows: Option<Vec<ActionRow>>,
}

/// A modal form as sent.
#[derive(Debug)]
pub struct ModalForm {
    pub custom_id: String,
    pub title: String,
    pub rows: Vec<ActionRow>,
}

/// The response to an interaction.
#[derive(Debug)]
pub enum Response {
    Message(MessageReply),
    Modal(ModalForm),
}

/// The `custom_id` text of a route.
pub open spec fn route_text(r: Route) -> Seq<char> {
    encode_spec(r@.0, r@.1)
}

/// `b` is the button drawn for `c`.
pub open spec fn button_of(c: Control, b: Button) -> bool {
    &&& b.custom_id@ == route_text(c.route)
    &&& b.label == c.label
    &&& b.style == c.style
}

/// `o` is the select option drawn for `c`.
pub open spec fn option_of(c: Choice, o: SelectOption) -> bool {
    o.label == c.label && o.value == c.value
}

/// `row` is the text-input row drawn for `f`: a paragraph when multiline,
/// its current value filled in.
pub open spec fn row_of(f: Field, row: ActionRow) -> bool {
    match row {
        ActionRow::InputText(t) => {
            &&& t.style == (if f.multiline {
                TextStyle::Paragraph
            } else {
                TextStyle::Short
            })
            &&& t.label == f.label
            &&& t.custom_id == f.id
            &&& t.value == Some(f.value)
            &&& t.placeholder == f.placeholder
        },
        _ => false,
    }
}

/// `r` is the response drawn for `s`. Message replies are ephemeral.
pub open spec fn renders(s: Screen, r: Response) -> bool {
    match s {
        Screen::Buttons { prompt, controls } => match r {
            Response::Message(m) => {
                &&& m.ephemeral
                &&& m.content == prompt
                &&& m.rows matches Some(rows)
                &&& rows@.len() == 1
                &&& rows@[0] matches ActionRow::Buttons(bs)
                &&& bs@.len() == controls@.len()
                &&& forall|i: int| 0 <= i < bs@.len() ==> button_of(controls@[i], #[trigger] bs@[i])
            },
            _ => false,
        },
        Screen::Select { route, placeholder, options } => match r {
            Response::Message(m) => {
                &&& m.ephemeral
                &&& m.content is None
                &&& m.rows matches Some(rows)
                &&& rows@.len() == 1
                &&& rows@[0] matches ActionRow::SelectMenu(menu)
                &&& menu.custom_id@ == route_text(route)
                &&& menu.placeholder == Some(placeholder)
                &&& menu.options@.len() == options@.len()
                &&& forall|i: int|
                    0 <= i < options@.len() ==> option_of(options@[i], #[trigger] menu.options@[i])
            },
            _ => false,
        },
        Screen::Form { route, title, fields } => match r {
            Response::Modal(m) => {
                &&& m.custom_id@ == route_text(route)
                &&& m.title == title
                &&& m.rows@.len() == fields@.len()
                &&& forall|i: int| 0 <= i < fields@.len() ==> row_of(fields@[i], #[trigger] m.rows@[i])
            },
            _ => false,
        },
        Screen::Message(content) => match r {
            Response::Message(m) => m.ephemeral && m.content == Some(content) && m.rows is None,
            _ => false,
        },
    }
}

/// `row` is a text input with the id `id`, pre-filled with `value`.
pub open spec fn prefilled(row: ActionRow, id: Seq<char>, value: Seq<char>) -> bool {
    match row {
        ActionRow::InputText(t) => t.custom_id@ == id && match t.value {
            Some(v) => v@ == value,
            None => false,
        },
        _ => false,
    }
}

/// A drawn button carries its control's route, label and style unchanged.
pub proof fn law_button_keeps_control(c: Control, b: Button)
    requires
        button_of(c, b),
    ensures
        b.custom_id@ == encode_spec(c.route@.0, c.route@.1),
        b.label@ == c.label@,
        b.style == c.style,
        c.style == Style::Primary ==> b.style == Style::Primary,
        c.style == Style::Secondary ==> b.style == Style::Secondary,
        c.style == Style::Danger ==> b.style == Style::Danger,
{
}

/// A drawn text input is pre-filled with its field's current value, keyed
/// by the field's id, labelled with its label, with its placeholder; it is
/// a paragraph exactly when the field is multiline.
pub proof fn law_row_keeps_field(f: Field, row: ActionRow)
    requires
        row_of(f, row),
    ensures
        row matches ActionRow::InputText(t) && {
            &&& t.value matches Some(v) && v@ == f.value@
            &&& t.custom_id@ == f.id@
            &&& t.label@ == f.label@
            &&& t.placeholder == f.placeholder
            &&& (t.style == TextStyle::Paragraph <==> f.multiline)
        },
{
}

/// Rendering keeps the order and the content of what a screen lists: the
/// i-th button is drawn from the i-th control, the i-th select option from
/// the i-th choice, the i-th form row from the i-th field; and every reply
/// is shown only to the user who triggered it.
pub proof fn law_rendering_keeps_order(s: Screen, r: Response)
    requires
        renders(s, r),
    ensures
        match s {
            Screen::Buttons { prompt, controls } => r matches Response::Message(m) && {
                &&& m.ephemeral
                &&& m.content == prompt
                &&& m.rows matches Some(rows) && rows@.len() == 1 && (rows@[0] matches ActionRow::Buttons(bs)
                    && bs@.len() == controls@.len() && forall|i: int|
                    0 <= i < controls@.len() ==> {
                        &&& (#[trigger] bs@[i]).label@ == controls@[i].label@
                        &&& bs@[i].style == controls@[i].style
                        &&& bs@[i].custom_id@ == encode_spec(
                            controls@[i].route@.0,
                            controls@[i].route@.1,
                        )
                    })
            },
            Screen::Select { route, placeholder, options } => r matches Response::Message(m) && {
                &&& m.ephemeral
                &&& m.rows matches Some(rows) && rows@.len() == 1 && (rows@[0] matches ActionRow::SelectMenu(menu)
                    && menu.custom_id@ == encode_spec(route@.0, route@.1)
                    && menu.options@.len() == options@.len() && forall|i: int|
                    0 <= i < options@.len() ==> {
                        &&& (#[trigger] menu.options@[i]).label@ == options@[i].label@
                        &&& menu.options@[i].value@ == options@[i].value@
                    })
            },
            Screen::Form { route, title, fields } => r matches Response::Modal(m) && {
                &&& m.custom_id@ == encode_spec(route@.0, route@.1)
                &&& m.title@ == title@
                &&& m.rows@.len() == fields@.len()
                &&& forall|i: int|
                    0 <= i < fields@.len() ==> prefilled(
                        #[trigger] m.rows@[i],
                        fields@[i].id@,
                        fields@[i].value@,
                    )
            },
            Screen::Message(content) => r matches Response::Message(m) && {
                &&& m.ephemeral
                &&& m.content matches Some(c) && c@ == content@
                &&& m.rows is None
            },
        },
{
    match s {
        Screen::Buttons { prompt, controls } => {
            let m = r->Message_0;
            let bs = m.rows->Some_0@[0]->Buttons_0;
            assert forall|i: int| 0 <= i < controls@.len() implies {
                &&& (#[trigger] bs@[i]).label@ == controls@[i].label@
                &&& bs@[i].style == controls@[i].style
                &&& bs@[i].custom_id@ == encode_spec(controls@[i].route@.0, controls@[i].route@.1)
            } by {
                assert(button_of(controls@[i], bs@[i]));
            }
        },
        Screen::Select { route, placeholder, options } => {
            let m = r->Message_0;
            let menu = m.rows->Some_0@[0]->SelectMenu_0;
            assert forall|i: int| 0 <= i < options@.len() implies {
                &&& (#[trigger] menu.options@[i]).label@ == options@[i].label@
                &&& menu.options@[i].value@ == options@[i].value@
            } by {
                assert(option_of(options@[i], menu.options@[i]));
            }
        },
        Screen::Form { route, title, fields } => {
            let m = r->Modal_0;
            assert forall|i: int| 0 <= i < fields@.len() implies prefilled(
                #[trigger] m.rows@[i],
                fields@[i].id@,
                fields@[i].value@,
            ) by {
                assert(row_of(fields@[i], m.rows@[i]));
            }
        },
        Screen::Message(content) => {},
    }
}

impl Control {
    /// The button for this control; clicking it sends the encoded route.
    pub fn into_button(self) -> (b: Button)
        ensures
            button_of(self, b),
    {
        let custom_id = self.route.encode();
        Button { custom_id, label: self.label, style: self.style }
    }
}

impl Choice {
    /// The select option for this choice.
    pub fn into_option(self) -> (o: SelectOption)
        ensures
            option_of(self, o),
    {
        SelectOption { label: self.label, value: self.value }
    }
}

impl Field {
    /// The text-input row for this field.
    pub fn into_row(self) -> (row: ActionRow)
        ensures
            row_of(self, row),
    {
        let style = if self.multiline {
            TextStyle::Paragraph
        } else {
            TextStyle::Short
        };
        ActionRow::InputText(
            TextInput {
                style,
                label: self.label,
                custom_id: self.id,
                value: Some(self.value),
                placeholder: self.placeholder,
            },
        )
    }
}

impl Screen {
    /// The response that presents this screen. Replies are ephemeral.
    pub fn into_response(self) -> (r: Response)
        ensures
            renders(self, r),
    {
        match self {
            Screen::Buttons { prompt, controls } => {
                let mut buttons: Vec<Button> = Vec::new();
                for c in it: controls.into_iter()
                    invariant
                        it.seq() == controls@,
                        buttons@.len() == it.index(),
                        forall|i: int|
                            0 <= i < buttons@.len() ==> button_of(controls@[i], #[trigger] buttons@[i]),
                {
                    buttons.push(c.into_button());
                }
                let rows = vec![ActionRow::Buttons(buttons)];
                Response::Message(MessageReply { ephemeral: true, content: prompt, rows: Some(rows) })
            },
            Screen::Select { route, placeholder, options } => {
                let mut opts: Vec<SelectOption> = Vec::new();
                for c in it: options.into_iter()
                    invariant
                        it.seq() == options@,
                        opts@.len() == it.index(),
                        forall|i: int|
                            0 <= i < opts@.len() ==> option_of(options@[i], #[trigger] opts@[i]),
                {
                    opts.push(c.into_option());
                }
                let menu = SelectMenu {
                    custom_id: route.encode(),
                    options: opts,
                    placeholder: Some(placeholder),
                };
                let rows = vec![ActionRow::SelectMenu(menu)];
                Response::Message(MessageReply { ephemeral: true, content: None, rows: Some(rows) })
            },
            Screen::Form { route, title, fields } => {
                let mut rows: Vec<ActionRow> = Vec::new();
                for f in it: fields.into_iter()
                    invariant
                        it.seq() == fields@,
                        rows@.len() == it.index(),
                        forall|i: int| 0 <= i < rows@.len() ==> row_of(fields@[i], #[trigger] rows@[i]),
                {
                    rows.push(f.into_row());
                }
                Response::Modal(ModalForm { custom_id: route.encode(), title, rows })
            },
            Screen::Message(content) => {
                Response::Message(MessageReply { ephemeral: true, content: Some(content), rows: None })
            },
        }
    }
}

} // verus!
