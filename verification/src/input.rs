//! A neutral view of an inbound interaction, decoded once at the dispatch
//! boundary so that workflow logic never sees the wire types.

use vstd::prelude::*;

use crate::route::{decode_spec, law_decode_encode, no_sep, Route};
use crate::screen::{renders, ActionRow, Field, Response, Screen};
use crate::keyed::KeyedList;

verus! {

/// One component of a submitted modal, as far as the input reads it.
#[derive(Debug, Clone)]
pub enum ModalComponent {
    /// A text input: its `custom_id` and its submitted value, if any.
    InputText { custom_id: String, value: Option<String> },
    /// Any other component.
    Other,
}

/// The submitted text of an input, the empty text when there is none.
pub open spec fn value_text(v: Option<String>) -> Seq<char> {
    match v {
        Some(s) => s@,
        None => Seq::<char>::empty(),
    }
}

/// The fields a modal submits: each text input sets its id to its value, in
/// order, a later input of the same id replacing an earlier one.
pub open spec fn modal_fields(cs: Seq<ModalComponent>) -> Map<Seq<char>, Seq<char>>
    decreases cs.len(),
{
    if cs.len() == 0 {
        Map::empty()
    } else {
        let m = modal_fields(cs.drop_last());
        match cs.last() {
            ModalComponent::InputText { custom_id, value } => m.insert(custom_id@, value_text(value)),
            ModalComponent::Other => m,
        }
    }
}

/// The value of the last text input whose id is `id`, if there is one.
pub open spec fn last_input_value(cs: Seq<ModalComponent>, id: Seq<char>) -> Option<Seq<char>>
    decreases cs.len(),
{
    if cs.len() == 0 {
        None
    } else {
        match cs.last() {
            ModalComponent::InputText { custom_id, value } => if custom_id@ == id {
                Some(value_text(value))
            } else {
                last_input_value(cs.drop_last(), id)
            },
            ModalComponent::Other => last_input_value(cs.drop_last(), id),
        }
    }
}

/// `c` is a text input with the id `id`.
pub open spec fn is_input_with_id(c: ModalComponent, id: Seq<char>) -> bool {
    match c {
        ModalComponent::InputText { custom_id, .. } => custom_id@ == id,
        ModalComponent::Other => false,
    }
}

/// The submitted text of a component, the empty text for other components.
pub open spec fn input_text(c: ModalComponent) -> Seq<char> {
    match c {
        ModalComponent::InputText { value, .. } => value_text(value),
        ModalComponent::Other => Seq::<char>::empty(),
    }
}

/// The text input at `k` is the last one in `cs` with the id `id`.
pub open spec fn is_last_with_id(cs: Seq<ModalComponent>, id: Seq<char>, k: int) -> bool {
    &&& 0 <= k < cs.len()
    &&& is_input_with_id(cs[k], id)
    &&& forall|j: int| k < j < cs.len() ==> !is_input_with_id(#[trigger] cs[j], id)
}

/// The value a submission gives for `id`: that of its last text input with
/// that id, the empty text when it has none.
pub open spec fn submitted_as(cs: Seq<ModalComponent>, id: Seq<char>, v: Seq<char>) -> bool {
    ||| exists|k: int| #[trigger] is_last_with_id(cs, id, k) && input_text(cs[k]) == v
    ||| (forall|k: int| 0 <= k < cs.len() ==> !is_input_with_id(#[trigger] cs[k], id)) && v
        == Seq::<char>::empty()
}

/// The last text input with an id, wherever it stands (the first position
/// included), is the one whose value counts; with none, there is no value.
pub proof fn law_last_input_value_is_last(cs: Seq<ModalComponent>, id: Seq<char>)
    ensures
        forall|k: int| #[trigger]
            is_last_with_id(cs, id, k) ==> last_input_value(cs, id) == Some(input_text(cs[k])),
        (forall|k: int| 0 <= k < cs.len() ==> !is_input_with_id(#[trigger] cs[k], id))
            ==> last_input_value(cs, id) is None,
    decreases cs.len(),
{
    if cs.len() > 0 {
        let front = cs.drop_last();
        law_last_input_value_is_last(front, id);
        assert forall|k: int| #[trigger]
            is_last_with_id(cs, id, k) implies last_input_value(cs, id) == Some(
            input_text(cs[k]),
        ) by {
            if k < cs.len() - 1 {
                assert(!is_input_with_id(cs[cs.len() - 1], id));
                assert(front[k] == cs[k]);
                assert forall|j: int| k < j < front.len() implies !is_input_with_id(
                    #[trigger] front[j],
                    id,
                ) by {
                    assert(front[j] == cs[j]);
                }
                assert(is_last_with_id(front, id, k));
            }
        }
        if forall|k: int| 0 <= k < cs.len() ==> !is_input_with_id(#[trigger] cs[k], id) {
            assert(!is_input_with_id(cs[cs.len() - 1], id));
            assert forall|k: int| 0 <= k < front.len() implies !is_input_with_id(
                #[trigger] front[k],
                id,
            ) by {
                assert(front[k] == cs[k]);
            }
        }
    }
}

/// The value a submission gives for an id is determined by the submission.
pub proof fn lemma_submitted_as_value(cs: Seq<ModalComponent>, id: Seq<char>, v: Seq<char>)
    requires
        submitted_as(cs, id, v),
    ensures
        v == match last_input_value(cs, id) {
            Some(t) => t,
            None => Seq::<char>::empty(),
        },
{
    law_last_input_value_is_last(cs, id);
    if exists|k: int| #[trigger] is_last_with_id(cs, id, k) && input_text(cs[k]) == v {
        let k = choose|k: int| #[trigger] is_last_with_id(cs, id, k) && input_text(cs[k]) == v;
        assert(is_last_with_id(cs, id, k));
    }
}

/// A field of a submitted modal holds the value of the last text input with
/// its id; an id that no text input has is absent.
pub proof fn law_modal_field_is_last_input(cs: Seq<ModalComponent>, id: Seq<char>)
    ensures
        modal_fields(cs).contains_key(id) <==> last_input_value(cs, id) is Some,
        last_input_value(cs, id) matches Some(v) ==> modal_fields(cs)[id] == v,
    decreases cs.len(),
{
    if cs.len() > 0 {
        law_modal_field_is_last_input(cs.drop_last(), id);
    }
}

/// The ids of the text inputs among `cs`.
pub open spec fn input_ids(cs: Seq<ModalComponent>) -> Set<Seq<char>> {
    Set::new(
        |k: Seq<char>|
            exists|i: int|
                0 <= i < cs.len() && (#[trigger] cs[i] matches ModalComponent::InputText {
                    custom_id,
                    ..
                } && custom_id@ == k),
    )
}

/// The fields of a submitted modal are keyed by the ids of its text inputs.
pub proof fn lemma_modal_fields_keys(cs: Seq<ModalComponent>)
    ensures
        modal_fields(cs).dom() == input_ids(cs),
    decreases cs.len(),
{
    if cs.len() > 0 {
        let front = cs.drop_last();
        lemma_modal_fields_keys(front);
        assert forall|k: Seq<char>| #[trigger]
            modal_fields(cs).dom().contains(k) == input_ids(cs).contains(k) by {
            if input_ids(front).contains(k) {
                let i = choose|i: int|
                    0 <= i < front.len() && (#[trigger] front[i] matches ModalComponent::InputText {
                        custom_id,
                        ..
                    } && custom_id@ == k);
                assert(cs[i] == front[i]);
            }
            if input_ids(cs).contains(k) {
                let i = choose|i: int|
                    0 <= i < cs.len() && (#[trigger] cs[i] matches ModalComponent::InputText {
                        custom_id,
                        ..
                    } && custom_id@ == k);
                if i < cs.len() - 1 {
                    assert(front[i] == cs[i]);
                }
            }
        }
        assert(modal_fields(cs).dom() =~= input_ids(cs));
    } else {
        assert(input_ids(cs) =~= Set::<Seq<char>>::empty());
        assert(modal_fields(cs).dom() =~= Set::<Seq<char>>::empty());
    }
}

/// `cs` is what a modal with the rows `rows` submits: one text input per
/// row, carrying that row's id (with whatever value the user typed).
pub open spec fn submits(rows: Seq<ActionRow>, cs: Seq<ModalComponent>) -> bool {
    &&& cs.len() == rows.len()
    &&& forall|i: int|
        0 <= i < rows.len() ==> match (#[trigger] rows[i], cs[i]) {
            (ActionRow::InputText(t), ModalComponent::InputText { custom_id, .. }) => custom_id@
                == t.custom_id@,
            _ => false,
        }
}

/// Submitting the modal that a form screen renders comes back to its route,
/// with the values keyed by the ids of the form's fields: the custom id
/// decodes to the form's route (when that route is one that decodes back),
/// and the submitted fields are set exactly for those ids.
pub proof fn law_form_submission_keyed_by_field_ids(
    route: Route,
    title: String,
    fields: Vec<Field>,
    r: Response,
    cs: Seq<ModalComponent>,
)
    requires
        renders(Screen::Form { route, title, fields }, r),
        route@.0.len() > 0,
        no_sep(route@.0),
        forall|i: int| 0 <= i < route@.1.len() ==> no_sep(#[trigger] route@.1[i]),
        r matches Response::Modal(m) && submits(m.rows@, cs),
    ensures
        r matches Response::Modal(m) && decode_spec(m.custom_id@) == Some(route@),
        modal_fields(cs).dom() == Set::new(
            |k: Seq<char>| exists|i: int| 0 <= i < fields@.len() && (#[trigger] fields@[i]).id@ == k,
        ),
{
    law_decode_encode(route@.0, route@.1);
    lemma_modal_fields_keys(cs);
    let m = r->Modal_0;
    let ids = Set::new(
        |k: Seq<char>| exists|i: int| 0 <= i < fields@.len() && (#[trigger] fields@[i]).id@ == k,
    );
    assert forall|k: Seq<char>| #[trigger] input_ids(cs).contains(k) == ids.contains(k) by {
        if ids.contains(k) {
            let i = choose|i: int| 0 <= i < fields@.len() && (#[trigger] fields@[i]).id@ == k;
            assert(crate::screen::row_of(fields@[i], m.rows@[i]));
            assert(match (m.rows@[i], cs[i]) {
                (ActionRow::InputText(t), ModalComponent::InputText { custom_id, .. }) => custom_id@
                    == t.custom_id@,
                _ => false,
            });
            assert(cs[i] matches ModalComponent::InputText { custom_id, .. } && custom_id@ == k);
        }
        if input_ids(cs).contains(k) {
            let i = choose|i: int|
                0 <= i < cs.len() && (#[trigger] cs[i] matches ModalComponent::InputText {
                    custom_id,
                    ..
                } && custom_id@ == k);
            assert(crate::screen::row_of(fields@[i], m.rows@[i]));
            assert(match (m.rows@[i], cs[i]) {
                (ActionRow::InputText(t), ModalComponent::InputText { custom_id, .. }) => custom_id@
                    == t.custom_id@,
                _ => false,
            });
            assert(fields@[i].id@ == k);
        }
    }
    assert(input_ids(cs) =~= ids);
}

/// A neutral view of an inbound interaction.
#[derive(Debug)]
pub struct Input {
    /// The route encoded in the triggering control's `custom_id`.
    pub route: Route,
    /// The user who triggered the interaction.
    pub user: u64,
    /// Values from a select menu (empty for buttons and modals).
    pub selected: Vec<String>,
    /// Submitted modal fields, keyed by field id. Empty for components.
    pub fields: KeyedList<String>,
}

impl Input {
    /// Builds the input of a button click or select-menu choice; `None` when
    /// the `custom_id` is no route. `select_values` holds the chosen values
    /// of a string select and is `None` for other components.
    pub fn from_component(custom_id: &str, user: u64, select_values: Option<Vec<String>>) -> (r:
        Option<Input>)
        ensures
            match decode_spec(custom_id@) {
                None => r is None,
                Some(rv) => r matches Some(input) && {
                    &&& input.route@ == rv
                    &&& input.user == user
                    &&& input.selected@ == (match select_values {
                        Some(v) => v@,
                        None => Seq::<String>::empty(),
                    })
                    &&& input.fields@ == Map::<Seq<char>, Seq<char>>::empty()
                },
            },
    {
        let route = match Route::decode(custom_id) {
            Some(route) => route,
            None => return None,
        };
        let selected = match select_values {
            Some(v) => v,
            None => Vec::new(),
        };
        Some(Input { route, user, selected, fields: KeyedList::new() })
    }

    /// Builds the input of a modal submission; `None` when the `custom_id` is
    /// no route. The fields are those that `modal_fields` gives.
    pub fn from_modal(custom_id: &str, user: u64, components: Vec<ModalComponent>) -> (r: Option<
        Input,
    >)
        ensures
            match decode_spec(custom_id@) {
                None => r is None,
                Some(rv) => r matches Some(input) && {
                    &&& input.route@ == rv
                    &&& input.user == user
                    &&& input.selected@ == Seq::<String>::empty()
                    &&& input.fields@ == modal_fields(components@)
                },
            },
    {
        let route = match Route::decode(custom_id) {
            Some(route) => route,
            None => return None,
        };
        let mut fields: KeyedList<String> = KeyedList::new();
        let ghost cs = components@;
        for c in it: components.into_iter()
            invariant
                it.seq() == cs,
                fields@ == modal_fields(cs.take(it.index())),
        {
            proof {
                let t = cs.take(it.index() + 1);
                assert(t.drop_last() =~= cs.take(it.index()));
            }
            match c {
                ModalComponent::InputText { custom_id, value } => {
                    let v = match value {
                        Some(v) => v,
                        None => String::new(),
                    };
                    fields.insert(custom_id, v);
                },
                ModalComponent::Other => {},
            }
        }
        proof {
            assert(cs.take(cs.len() as int) =~= cs);
        }
        Some(Input { route, user, selected: Vec::new(), fields })
    }

    /// The first selected value, if any.
    pub fn first_selected(&self) -> (r: Option<&str>)
        ensures
            match r {
                Some(v) => self.selected@.len() > 0 && v@ == self.selected@[0]@,
                None => self.selected@.len() == 0,
            },
    {
        if self.selected.len() > 0 {
            Some(self.selected[0].as_str())
        } else {
            None
        }
    }

    /// A submitted field by id.
    pub fn field(&self, id: &str) -> (r: Option<&str>)
        ensures
            match r {
                Some(v) => self.fields@.contains_key(id@) && v@ == self.fields@[id@],
                None => !self.fields@.contains_key(id@),
            },
    {
        match self.fields.get(id) {
            Some(v) => Some(v.as_str()),
            None => None,
        }
    }
}

} // verus!
