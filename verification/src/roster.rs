//! The roster of live children that a pane keeps in one option: `type:id`
//! entries, separated by commas, oldest first.

use vstd::prelude::*;

verus! {

/// The fields of a comma-separated list. A list without a comma is one field,
/// so the empty list is one empty field.
pub open spec fn fields(list: Seq<char>) -> Seq<Seq<char>>
    decreases list.len(),
{
    if list.len() == 0 {
        seq![Seq::empty()]
    } else {
        let before = fields(list.drop_last());
        if list.last() == ',' {
            before.push(Seq::empty())
        } else {
            before.drop_last().push(before.last().push(list.last()))
        }
    }
}

/// `parts` with a comma between each and the next.
pub open spec fn joined(parts: Seq<Seq<char>>) -> Seq<char>
    decreases parts.len(),
{
    if parts.len() == 0 {
        Seq::empty()
    } else if parts.len() == 1 {
        parts[0]
    } else {
        joined(parts.drop_last()) + seq![','] + parts.last()
    }
}

/// The entry of a child.
pub open spec fn entry(agent_type: Seq<char>, id: Seq<char>) -> Seq<char> {
    agent_type + seq![':'] + id
}

/// Whether `field` is an entry of the child `id`, whatever its type.
pub open spec fn tracks(field: Seq<char>, id: Seq<char>) -> bool {
    exists|agent_type: Seq<char>| field == #[trigger] entry(agent_type, id)
}

/// Whether the roster `list` has an entry of the child `id`.
pub open spec fn is_tracked(list: Seq<char>, id: Seq<char>) -> bool {
    exists|i: int| 0 <= i < fields(list).len() && tracks(#[trigger] fields(list)[i], id)
}

/// `list` with an entry at its end.
pub open spec fn with_subagent(list: Seq<char>, agent_type: Seq<char>, id: Seq<char>) -> Seq<char> {
    if list.len() == 0 {
        entry(agent_type, id)
    } else {
        list + seq![','] + entry(agent_type, id)
    }
}

/// `list` without the entries of the child `id`, the others in their order.
pub open spec fn without_subagent(list: Seq<char>, id: Seq<char>) -> Seq<char> {
    joined(fields(list).filter(|field: Seq<char>| !tracks(field, id)))
}

/// Whether a comma occurs in `text`.
pub open spec fn has_comma(text: Seq<char>) -> bool {
    text.contains(',')
}

/// A list has at least one field, and no field holds a comma.
pub proof fn fields_hold_no_comma(list: Seq<char>)
    ensures
        fields(list).len() >= 1,
        forall|i: int| 0 <= i < fields(list).len() ==> !has_comma(#[trigger] fields(list)[i]),
    decreases list.len(),
{
    if list.len() > 0 {
        let before = fields(list.drop_last());
        fields_hold_no_comma(list.drop_last());
        if list.last() != ',' {
            let longer = before.last().push(list.last());
            assert(!has_comma(before[before.len() - 1]));
            assert forall|k: int| 0 <= k < longer.len() implies longer[k] != ',' by {
                if k < before.last().len() {
                    assert(longer[k] == before.last()[k]);
                }
            }
        }
    }
}

/// Joining the fields of a list gives the list back.
pub proof fn joined_fields_are_the_list(list: Seq<char>)
    ensures
        joined(fields(list)) == list,
    decreases list.len(),
{
    if list.len() > 0 {
        let shorter = list.drop_last();
        let before = fields(shorter);
        joined_fields_are_the_list(shorter);
        fields_hold_no_comma(shorter);
        assert(list =~= shorter.push(list.last()));
        if list.last() == ',' {
            assert(fields(list).drop_last() =~= before);
            assert(joined(fields(list)) =~= list);
        } else {
            let after = fields(list);
            assert(after.drop_last() =~= before.drop_last());
            assert(after.last() == before.last().push(list.last()));
            if before.len() > 1 {
                assert(joined(after) =~= list);
            }
        }
    }
}

/// The fields on either side of a comma are the fields of the whole.
pub proof fn lemma_fields_around_comma(list: Seq<char>, text: Seq<char>)
    ensures
        fields(list + seq![','] + text) == fields(list) + fields(text),
    decreases text.len(),
{
    let whole = list + seq![','] + text;
    if text.len() == 0 {
        assert(whole.drop_last() =~= list);
        assert(fields(whole) =~= fields(list) + fields(text));
    } else {
        let shorter = text.drop_last();
        lemma_fields_around_comma(list, shorter);
        fields_hold_no_comma(shorter);
        assert(whole.drop_last() =~= list + seq![','] + shorter);
        assert(whole.last() == text.last());
        assert(fields(whole) =~= fields(list) + fields(text));
    }
}

/// A comma-free text is one field.
pub proof fn comma_free_text_is_one_field(text: Seq<char>)
    requires
        !has_comma(text),
    ensures
        fields(text) == seq![text],
    decreases text.len(),
{
    if text.len() == 0 {
        assert(text =~= Seq::<char>::empty());
    } else {
        let shorter = text.drop_last();
        assert forall|k: int| 0 <= k < shorter.len() implies shorter[k] != ',' by {
            assert(text[k] == shorter[k]);
        }
        comma_free_text_is_one_field(shorter);
        assert(text[text.len() - 1] != ',');
        assert(shorter.push(text.last()) =~= text);
        assert(fields(text) =~= seq![text]);
    }
}

/// A comma-free text behind a comma is one more field.
pub proof fn comma_free_text_behind_a_comma_is_a_field(list: Seq<char>, text: Seq<char>)
    requires
        !has_comma(text),
    ensures
        fields(list + seq![','] + text) == fields(list).push(text),
{
    lemma_fields_around_comma(list, text);
    comma_free_text_is_one_field(text);
    assert(fields(list) + seq![text] =~= fields(list).push(text));
}

/// Splitting undoes joining: any non-empty sequence of comma-free parts is
/// what the fields of its join are.
pub proof fn fields_of_joined_are_the_parts(parts: Seq<Seq<char>>)
    requires
        parts.len() >= 1,
        forall|i: int| 0 <= i < parts.len() ==> !has_comma(#[trigger] parts[i]),
    ensures
        fields(joined(parts)) == parts,
    decreases parts.len(),
{
    if parts.len() == 1 {
        comma_free_text_is_one_field(parts[0]);
        assert(parts =~= seq![parts[0]]);
    } else {
        let front = parts.drop_last();
        assert forall|i: int| 0 <= i < front.len() implies !has_comma(#[trigger] front[i]) by {
            assert(front[i] == parts[i]);
        }
        fields_of_joined_are_the_parts(front);
        assert(!has_comma(parts[parts.len() - 1]));
        comma_free_text_behind_a_comma_is_a_field(joined(front), parts.last());
        assert(front.push(parts.last()) =~= parts);
    }
}

/// An entry is recognised by its end alone: a colon and the whole id.
pub proof fn lemma_tracks_by_suffix(field: Seq<char>, id: Seq<char>)
    ensures
        tracks(field, id) <==> {
            &&& field.len() > id.len()
            &&& field[field.len() - id.len() - 1] == ':'
            &&& field.skip(field.len() - id.len()) == id
        },
{
    if tracks(field, id) {
        let agent_type = choose|agent_type: Seq<char>| field == #[trigger] entry(agent_type, id);
        assert(field.skip(field.len() - id.len()) =~= id);
    }
    if field.len() > id.len() && field[field.len() - id.len() - 1] == ':' && field.skip(
        field.len() - id.len(),
    ) == id {
        let agent_type = field.take(field.len() - id.len() - 1);
        assert(field =~= entry(agent_type, id));
    }
}

/// Without an entry of `id`, nothing is filtered out; with one, something is.
proof fn lemma_filter_length(parts: Seq<Seq<char>>, id: Seq<char>)
    ensures
        ({
            let kept = parts.filter(|field: Seq<char>| !tracks(field, id));
            let found = exists|i: int| 0 <= i < parts.len() && tracks(#[trigger] parts[i], id);
            &&& kept.len() <= parts.len()
            &&& found <==> kept.len() < parts.len()
            &&& !found ==> kept == parts
        }),
    decreases parts.len(),
{
    reveal(Seq::filter);
    if parts.len() > 0 {
        let front = parts.drop_last();
        lemma_filter_length(front, id);
        let found_in_front = exists|i: int|
            0 <= i < front.len() && tracks(#[trigger] front[i], id);
        if found_in_front {
            let i = choose|i: int| 0 <= i < front.len() && tracks(#[trigger] front[i], id);
            assert(tracks(parts[i], id));
        }
        if tracks(parts.last(), id) {
            assert(tracks(parts[parts.len() - 1], id));
        }
        if exists|i: int| 0 <= i < parts.len() && tracks(#[trigger] parts[i], id) {
            let i = choose|i: int| 0 <= i < parts.len() && tracks(#[trigger] parts[i], id);
            if i < front.len() {
                assert(tracks(front[i], id));
            }
        } else {
            assert(front.push(parts.last()) =~= parts);
        }
    }
}

/// What is left of comma-free parts is comma-free, and no entry of `id`.
proof fn lemma_filter_keeps(parts: Seq<Seq<char>>, id: Seq<char>)
    requires
        forall|i: int| 0 <= i < parts.len() ==> !has_comma(#[trigger] parts[i]),
    ensures
        ({
            let kept = parts.filter(|field: Seq<char>| !tracks(field, id));
            forall|i: int|
                0 <= i < kept.len() ==> !has_comma(#[trigger] kept[i]) && !tracks(kept[i], id)
        }),
    decreases parts.len(),
{
    reveal(Seq::filter);
    if parts.len() > 0 {
        let front = parts.drop_last();
        assert forall|i: int| 0 <= i < front.len() implies !has_comma(#[trigger] front[i]) by {
            assert(front[i] == parts[i]);
        }
        lemma_filter_keeps(front, id);
        assert(!has_comma(parts[parts.len() - 1]));
        let keep = |field: Seq<char>| !tracks(field, id);
        let before = front.filter(keep);
        if keep(parts.last()) {
            assert(parts.filter(keep) == before.push(parts.last()));
        } else {
            assert(parts.filter(keep) == before);
        }
    }
}

/// The fields of a roster after a removal: those that are no entry of `id`, in
/// their order. Where none is left, the roster is empty.
pub proof fn removal_keeps_the_others(list: Seq<char>, id: Seq<char>)
    ensures
        ({
            let kept = fields(list).filter(|field: Seq<char>| !tracks(field, id));
            if kept.len() == 0 {
                without_subagent(list, id) == Seq::<char>::empty()
            } else {
                fields(without_subagent(list, id)) == kept
            }
        }),
{
    let kept = fields(list).filter(|field: Seq<char>| !tracks(field, id));
    fields_hold_no_comma(list);
    lemma_filter_keeps(fields(list), id);
    if kept.len() > 0 {
        fields_of_joined_are_the_parts(kept);
    }
}

/// A removed child is tracked no more.
pub proof fn removed_child_is_not_tracked(list: Seq<char>, id: Seq<char>)
    ensures
        !is_tracked(without_subagent(list, id), id),
{
    let kept = fields(list).filter(|field: Seq<char>| !tracks(field, id));
    fields_hold_no_comma(list);
    lemma_filter_keeps(fields(list), id);
    removal_keeps_the_others(list, id);
    if kept.len() == 0 {
        empty_roster_tracks_no_child(id);
    }
}

/// The empty roster tracks no child.
pub proof fn empty_roster_tracks_no_child(id: Seq<char>)
    ensures
        !is_tracked(Seq::empty(), id),
{
    assert(fields(Seq::<char>::empty()) =~= seq![Seq::<char>::empty()]);
    lemma_tracks_by_suffix(Seq::empty(), id);
}

/// Removing a child that is not tracked leaves the roster as it is.
pub proof fn removal_of_untracked_child(list: Seq<char>, id: Seq<char>)
    requires
        !is_tracked(list, id),
    ensures
        without_subagent(list, id) == list,
{
    lemma_filter_length(fields(list), id);
    joined_fields_are_the_list(list);
}

proof fn lemma_entry_has_no_comma(agent_type: Seq<char>, id: Seq<char>)
    requires
        !has_comma(agent_type),
        !has_comma(id),
    ensures
        !has_comma(entry(agent_type, id)),
{
    let text = entry(agent_type, id);
    assert forall|k: int| 0 <= k < text.len() implies text[k] != ',' by {
        if k < agent_type.len() {
            assert(text[k] == agent_type[k]);
        } else if k > agent_type.len() {
            assert(text[k] == id[k - agent_type.len() - 1]);
        }
    }
}

/// An appended child is tracked.
pub proof fn appended_child_is_tracked(list: Seq<char>, agent_type: Seq<char>, id: Seq<char>)
    requires
        !has_comma(agent_type),
        !has_comma(id),
    ensures
        is_tracked(with_subagent(list, agent_type, id), id),
{
    let text = entry(agent_type, id);
    lemma_entry_has_no_comma(agent_type, id);
    if list.len() == 0 {
        comma_free_text_is_one_field(text);
        assert(tracks(fields(text)[0], id));
    } else {
        comma_free_text_behind_a_comma_is_a_field(list, text);
        let all = fields(list + seq![','] + text);
        assert(all[all.len() - 1] == text);
        assert(tracks(all[all.len() - 1], id));
    }
}

/// Removing a child right after it was appended gives the roster back, if it
/// was not tracked before.
pub proof fn removal_undoes_append(list: Seq<char>, agent_type: Seq<char>, id: Seq<char>)
    requires
        !has_comma(agent_type),
        !has_comma(id),
        !is_tracked(list, id),
    ensures
        is_tracked(with_subagent(list, agent_type, id), id),
        without_subagent(with_subagent(list, agent_type, id), id) == list,
{
    let text = entry(agent_type, id);
    let longer = with_subagent(list, agent_type, id);
    let keep = |field: Seq<char>| !tracks(field, id);
    appended_child_is_tracked(list, agent_type, id);
    lemma_entry_has_no_comma(agent_type, id);
    assert(tracks(text, id));
    reveal(Seq::filter);
    if list.len() == 0 {
        comma_free_text_is_one_field(text);
        assert(fields(longer).drop_last() =~= Seq::<Seq<char>>::empty());
        assert(Seq::<Seq<char>>::empty().filter(keep) =~= Seq::<Seq<char>>::empty());
        assert(fields(longer).filter(keep) =~= Seq::<Seq<char>>::empty());
        assert(list =~= Seq::<char>::empty());
    } else {
        comma_free_text_behind_a_comma_is_a_field(list, text);
        assert(fields(longer).drop_last() =~= fields(list));
        assert(fields(longer).filter(keep) == fields(list).filter(keep));
        removal_of_untracked_child(list, id);
    }
}

/// After an append a child is tracked exactly where it was before, or where the
/// appended text holds an entry of it.
pub proof fn append_keeps_other_children(
    list: Seq<char>,
    agent_type: Seq<char>,
    id: Seq<char>,
    other: Seq<char>,
)
    ensures
        is_tracked(with_subagent(list, agent_type, id), other) <==> is_tracked(list, other)
            || is_tracked(entry(agent_type, id), other),
{
    let text = entry(agent_type, id);
    if list.len() == 0 {
        assert(list =~= Seq::<char>::empty());
        empty_roster_tracks_no_child(other);
    } else {
        let front = fields(list);
        let back = fields(text);
        let all = front + back;
        lemma_fields_around_comma(list, text);
        if is_tracked(list, other) {
            let i = choose|i: int| 0 <= i < front.len() && tracks(#[trigger] front[i], other);
            assert(tracks(all[i], other));
        }
        if is_tracked(text, other) {
            let i = choose|i: int| 0 <= i < back.len() && tracks(#[trigger] back[i], other);
            assert(tracks(all[front.len() + i], other));
        }
        if is_tracked(with_subagent(list, agent_type, id), other) {
            let i = choose|i: int| 0 <= i < all.len() && tracks(#[trigger] all[i], other);
            if i < front.len() {
                assert(tracks(front[i], other));
            } else {
                assert(tracks(back[i - front.len()], other));
            }
        }
    }
}

/// After a removal a child is tracked exactly where an entry of it was there
/// that is not also an entry of the removed child.
pub proof fn removal_keeps_other_children(list: Seq<char>, id: Seq<char>, other: Seq<char>)
    ensures
        is_tracked(without_subagent(list, id), other) <==> exists|i: int|
            0 <= i < fields(list).len() && tracks(#[trigger] fields(list)[i], other) && !tracks(
                fields(list)[i],
                id,
            ),
{
    let keep = |field: Seq<char>| !tracks(field, id);
    let all = fields(list);
    let kept = all.filter(keep);
    let left = fields(without_subagent(list, id));
    removal_keeps_the_others(list, id);
    if exists|i: int| 0 <= i < all.len() && tracks(#[trigger] all[i], other) && !tracks(all[i], id) {
        let i = choose|i: int|
            0 <= i < all.len() && tracks(#[trigger] all[i], other) && !tracks(all[i], id);
        assert(keep(all[i]));
        assert(kept.contains(all[i]));
        let j = choose|j: int| 0 <= j < kept.len() && kept[j] == all[i];
        assert(tracks(left[j], other));
    }
    if is_tracked(without_subagent(list, id), other) {
        if kept.len() == 0 {
            empty_roster_tracks_no_child(other);
        }
        let j = choose|j: int| 0 <= j < left.len() && tracks(#[trigger] left[j], other);
        assert(kept.contains(kept[j]));
        all.lemma_filter_contains_rev(keep, kept[j]);
        let i = choose|i: int| 0 <= i < all.len() && all[i] == kept[j];
        assert(keep(kept[j]));
        assert(tracks(all[i], other) && !tracks(all[i], id));
    }
}

/// Ids are told apart: no field is an entry of two of them, unless one id ends
/// in a colon and the other.
pub proof fn ids_are_told_apart(field: Seq<char>, id: Seq<char>, other: Seq<char>)
    requires
        tracks(field, id),
        tracks(field, other),
    ensures
        id == other || tracks(id, other) || tracks(other, id),
{
    lemma_tracks_by_suffix(field, id);
    lemma_tracks_by_suffix(field, other);
    lemma_tracks_by_suffix(id, other);
    lemma_tracks_by_suffix(other, id);
    let n = field.len();
    if id.len() < other.len() {
        assert(other[other.len() - id.len() - 1] == field[n - id.len() - 1]);
        assert(other.skip(other.len() - id.len()) =~= id);
    } else if other.len() < id.len() {
        assert(id[id.len() - other.len() - 1] == field[n - other.len() - 1]);
        assert(id.skip(id.len() - other.len()) =~= other);
    }
}

/// An entry is the type, a colon and the id, and a roster grows at its end, behind
/// a comma.
pub proof fn entry_is_type_colon_id(list: Seq<char>, agent_type: Seq<char>, id: Seq<char>)
    ensures
        entry(agent_type, id) == agent_type + seq![':'] + id,
        list.len() == 0 ==> with_subagent(list, agent_type, id) == agent_type + seq![':'] + id,
        list.len() > 0 ==> with_subagent(list, agent_type, id) == list + seq![','] + agent_type
            + seq![':'] + id,
{
    assert(list + seq![','] + (agent_type + seq![':'] + id) =~= list + seq![','] + agent_type
        + seq![':'] + id);
}

/// Joining puts one comma between each part and the next, and nothing else.
pub proof fn joined_parts_are_parted_by_commas(parts: Seq<Seq<char>>, part: Seq<char>)
    ensures
        joined(Seq::empty()).len() == 0,
        joined(seq![part]) == part,
        parts.len() > 0 ==> joined(parts.push(part)) == joined(parts) + seq![','] + part,
{
    assert(parts.push(part).drop_last() =~= parts);
}

/// A comma is found where one stands.
pub proof fn comma_is_found(text: Seq<char>)
    ensures
        has_comma(text) <==> exists|i: int| 0 <= i < text.len() && text[i] == ',',
{
    if has_comma(text) {
        let i = choose|i: int| 0 <= i < text.len() && text[i] == ',';
        assert(text[i] == ',');
    }
}

/// A child is tracked where some field of the roster ends in a colon and the
/// child's whole id.
pub proof fn tracked_child_has_a_field(list: Seq<char>, id: Seq<char>)
    ensures
        is_tracked(list, id) <==> exists|i: int|
            0 <= i < fields(list).len() && {
                let field = #[trigger] fields(list)[i];
                &&& field.len() > id.len()
                &&& field[field.len() - id.len() - 1] == ':'
                &&& field.skip(field.len() - id.len()) == id
            },
{
    if is_tracked(list, id) {
        let i = choose|i: int| 0 <= i < fields(list).len() && tracks(#[trigger] fields(list)[i], id);
        lemma_tracks_by_suffix(fields(list)[i], id);
    }
    if exists|i: int|
        0 <= i < fields(list).len() && {
            let field = #[trigger] fields(list)[i];
            &&& field.len() > id.len()
            &&& field[field.len() - id.len() - 1] == ':'
            &&& field.skip(field.len() - id.len()) == id
        } {
        let i = choose|i: int|
            0 <= i < fields(list).len() && {
                let field = #[trigger] fields(list)[i];
                &&& field.len() > id.len()
                &&& field[field.len() - id.len() - 1] == ':'
                &&& field.skip(field.len() - id.len()) == id
            };
        lemma_tracks_by_suffix(fields(list)[i], id);
        assert(tracks(fields(list)[i], id));
    }
}

/// A removal takes off the fields that end in a colon and the child's whole id,
/// and keeps all others, in their order and unchanged.
pub proof fn removal_takes_the_fields_of_the_child_only(
    list: Seq<char>,
    id: Seq<char>,
    kept: Seq<Seq<char>>,
)
    requires
        kept == fields(list).filter(
            |field: Seq<char>|
                !(field.len() > id.len() && field[field.len() - id.len() - 1] == ':' && field.skip(
                    field.len() - id.len(),
                ) == id),
        ),
    ensures
        without_subagent(list, id) == joined(kept),
        kept.len() > 0 ==> fields(without_subagent(list, id)) == kept,
        kept.len() == 0 ==> without_subagent(list, id).len() == 0,
        is_tracked(list, id) <==> kept.len() < fields(list).len(),
        !is_tracked(list, id) ==> without_subagent(list, id) == list,
{
    let by_end = |field: Seq<char>|
        !(field.len() > id.len() && field[field.len() - id.len() - 1] == ':' && field.skip(
            field.len() - id.len(),
        ) == id);
    let by_entry = |field: Seq<char>| !tracks(field, id);
    assert forall|field: Seq<char>| #[trigger] by_end(field) == by_entry(field) by {
        lemma_tracks_by_suffix(field, id);
    }
    assert(by_end =~= by_entry);
    removal_keeps_the_others(list, id);
    lemma_filter_length(fields(list), id);
    if !is_tracked(list, id) {
        removal_of_untracked_child(list, id);
    }
}

/// A roster reads as empty after a removal exactly where nothing is left of it
/// but, at most, one empty field.
pub proof fn roster_is_empty_when_nothing_is_left(kept: Seq<Seq<char>>)
    ensures
        joined(kept).len() == 0 <==> kept.len() == 0 || (kept.len() == 1 && kept[0].len() == 0),
{
}

/// The views of a list of strings.
spec fn texts(parts: Seq<String>) -> Seq<Seq<char>> {
    parts.map_values(|part: String| part@)
}

/// The fields of `list`.
fn split_fields(list: &str) -> (parts: Vec<String>)
    ensures
        texts(parts@) == fields(list@),
{
    let n: usize = list.unicode_len();
    let mut parts: Vec<String> = Vec::new();
    let mut start: usize = 0;
    let mut i: usize = 0;
    assert(list@.take(0) =~= Seq::<char>::empty());
    assert(texts(parts@).push(list@.subrange(0, 0)) =~= seq![Seq::<char>::empty()]);
    while i < n
        invariant
            n == list@.len(),
            start <= i <= n,
            fields(list@.take(i as int)) == texts(parts@).push(
                list@.subrange(start as int, i as int),
            ),
        decreases n - i,
    {
        let ghost before = texts(parts@);
        let ghost part = list@.subrange(start as int, i as int);
        assert(list@.take(i + 1).drop_last() =~= list@.take(i as int));
        assert(list@.take(i + 1).last() == list@[i as int]);
        assert(before.push(part).drop_last() =~= before);
        if list.get_char(i) == ',' {
            parts.push(list.substring_char(start, i).to_owned());
            start = i + 1;
            assert(texts(parts@) =~= before.push(part));
            assert(list@.subrange(start as int, i + 1) =~= Seq::<char>::empty());
        } else {
            assert(list@.subrange(start as int, i + 1) =~= part.push(list@[i as int]));
        }
        i = i + 1;
    }
    let ghost before = texts(parts@);
    parts.push(list.substring_char(start, n).to_owned());
    assert(list@.take(n as int) =~= list@);
    assert(texts(parts@) =~= before.push(list@.subrange(start as int, n as int)));
    parts
}

/// Whether `field` is an entry of the child `id`.
fn field_tracks(field: &str, id: &str) -> (found: bool)
    ensures
        found == tracks(field@, id@),
{
    proof {
        lemma_tracks_by_suffix(field@, id@);
    }
    let n: usize = field.unicode_len();
    let m: usize = id.unicode_len();
    n > m && field.get_char(n - m - 1) == ':' && field.substring_char(n - m, n).to_owned()
        == id.to_owned()
}

/// `current` with an entry for the child at its end.
pub fn append_subagent(current: &str, agent_type: &str, agent_id: &str) -> (list: String)
    ensures
        list@ == with_subagent(current@, agent_type@, agent_id@),
{
    proof {
        reveal_strlit(",");
        reveal_strlit(":");
    }
    let mut list: String = current.to_owned();
    if !current.is_empty() {
        list.append(",");
    }
    list.append(agent_type);
    list.append(":");
    list.append(agent_id);
    assert(list@ =~= with_subagent(current@, agent_type@, agent_id@));
    list
}

/// `current` without the child's entries, or `None` where it has none.
pub fn remove_subagent(current: &str, agent_id: &str) -> (list: Option<String>)
    ensures
        list is Some <==> is_tracked(current@, agent_id@),
        list matches Some(l) ==> l@ == without_subagent(current@, agent_id@),
{
    proof {
        reveal(Seq::filter);
    }
    let parts = split_fields(current);
    let ghost keep = |field: Seq<char>| !tracks(field, agent_id@);
    let ghost all = fields(current@);
    let mut list: String = String::new();
    let mut kept: usize = 0;
    let mut i: usize = 0;
    while i < parts.len()
        invariant
            i <= parts.len(),
            all == fields(current@),
            texts(parts@) == all,
            keep == (|field: Seq<char>| !tracks(field, agent_id@)),
            kept == all.take(i as int).filter(keep).len(),
            kept <= i,
            list@ == joined(all.take(i as int).filter(keep)),
        decreases parts.len() - i,
    {
        proof {
            reveal_strlit(",");
            reveal(Seq::filter);
        }
        let ghost before = all.take(i as int).filter(keep);
        assert(all.take(i + 1).drop_last() =~= all.take(i as int));
        assert(all.take(i + 1).last() == parts@[i as int]@);
        let part = parts[i].as_str();
        if !field_tracks(part, agent_id) {
            let ghost after = before.push(part@);
            assert(after.drop_last() =~= before);
            if kept > 0 {
                list.append(",");
            }
            list.append(part);
            kept = kept + 1;
            assert(list@ =~= joined(after));
        }
        i = i + 1;
    }
    assert(all.take(i as int) =~= all);
    proof {
        lemma_filter_length(all, agent_id@);
    }
    if kept < parts.len() {
        Some(list)
    } else {
        None
    }
}

} // verus!
