//! Keeping oversize output of a tool away from the model. A text that is longer than the limit
//! is stored elsewhere by the caller and replaced by a note that says where; this is done to
//! every successful result, whichever tool produced it.
use vstd::prelude::*;
use crate::lists::reversed;
use crate::tool::{result_view, Content, ContentView, ToolResult, ToolResultView};

verus! {

/// The longest text, in characters, that is handed to the model as it is.
pub const LARGE_TEXT_THRESHOLD: usize = 200_000;

/// Whether the content is a text of more than `limit` characters.
pub open spec fn is_oversize(content: ContentView, limit: nat) -> bool {
    content matches ContentView::Text(text) && text.len() > limit
}

/// Whether the content is a text of more than `limit` characters.
pub fn oversize(content: &Content, limit: usize) -> (large: bool)
    ensures
        large == is_oversize(content@, limit as nat),
{
    match content {
        Content::Text(text) => text.as_str().unicode_len() > limit,
        _ => false,
    }
}

/// The positions of the oversize texts among `contents`, in ascending order.
pub open spec fn oversize_positions(contents: Seq<ContentView>, limit: nat) -> Seq<int>
    decreases contents.len(),
{
    if contents.len() == 0 {
        Seq::empty()
    } else if is_oversize(contents.last(), limit) {
        oversize_positions(contents.drop_last(), limit).push(contents.len() - 1)
    } else {
        oversize_positions(contents.drop_last(), limit)
    }
}

/// The positions as plain integers.
pub open spec fn positions_view(positions: Seq<usize>) -> Seq<int> {
    Seq::new(positions.len(), |i: int| positions[i] as int)
}

/// Finds the texts that have to be stored elsewhere: the positions of the oversize texts of
/// a successful result, in ascending order. A failed result has none.
pub fn oversize_texts(result: &ToolResult, limit: usize) -> (positions: Vec<usize>)
    ensures
        positions_view(positions@) == match result_view(*result) {
            Ok(contents) => oversize_positions(contents, limit as nat),
            Err(_) => Seq::empty(),
        },
{
    let mut positions: Vec<usize> = Vec::new();
    assert(positions_view(positions@) =~= Seq::empty());
    match result {
        Ok(contents) => {
            let ghost all = contents.deep_view();
            let mut i: usize = 0;
            assert(all.take(0) =~= Seq::empty());
            while i < contents.len()
                invariant
                    0 <= i <= contents.len(),
                    all == contents.deep_view(),
                    positions_view(positions@) == oversize_positions(
                        all.take(i as int),
                        limit as nat,
                    ),
                decreases contents.len() - i,
            {
                assert(all.take(i + 1).drop_last() =~= all.take(i as int));
                assert(all.take(i + 1).last() == contents@[i as int]@);
                if oversize(&contents[i], limit) {
                    let ghost before = positions_view(positions@);
                    positions.push(i);
                    assert(positions_view(positions@) =~= before.push(i as int));
                }
                i += 1;
            }
            assert(all.take(i as int) =~= all);
        },
        Err(_) => {},
    }
    positions
}

/// The contents with each oversize text replaced by its note. The notes are taken in the
/// order of the oversize texts; a text without a note, because it could not be stored or
/// because the notes have run out, stays as it is.
pub open spec fn with_notes(
    contents: Seq<ContentView>,
    limit: nat,
    notes: Seq<Option<Seq<char>>>,
) -> Seq<ContentView>
    decreases contents.len(),
{
    if contents.len() == 0 {
        Seq::empty()
    } else if is_oversize(contents.first(), limit) && notes.len() > 0 {
        seq![
            match notes.first() {
                Some(note) => ContentView::Text(note),
                None => contents.first(),
            },
        ] + with_notes(contents.drop_first(), limit, notes.drop_first())
    } else {
        seq![contents.first()] + with_notes(contents.drop_first(), limit, notes)
    }
}

/// The result after the handling of oversize texts: a failed result passes unchanged.
pub open spec fn processed(result: ToolResultView, limit: nat, notes: Seq<Option<Seq<char>>>) -> ToolResultView {
    match result {
        Ok(contents) => Ok(with_notes(contents, limit, notes)),
        Err(e) => Err(e),
    }
}

/// Replaces each oversize text of a successful result by the note that was made for it;
/// `notes` holds one entry for each oversize text, in their order: the note, or `None` where
/// the text could not be stored.
pub fn process_tool_response(result: ToolResult, limit: usize, notes: Vec<Option<String>>) -> (out:
    ToolResult)
    ensures
        result_view(out) == processed(result_view(result), limit as nat, notes.deep_view()),
{
    match result {
        Err(e) => Err(e),
        Ok(contents) => {
            let ghost all = contents.deep_view();
            let ghost all_notes = notes.deep_view();
            let ghost total = contents@.len();
            let ghost total_notes = notes@.len();
            let mut rest = reversed(contents);
            let mut rest_notes = reversed(notes);
            let mut out: Vec<Content> = Vec::new();
            assert(out.deep_view() =~= Seq::empty());
            assert(all.skip(0) =~= all);
            assert(all_notes.skip(0) =~= all_notes);
            while rest.len() > 0
                invariant
                    rest@.len() <= total,
                    rest_notes@.len() <= total_notes,
                    all.len() == total,
                    all_notes.len() == total_notes,
                    forall|j: int|
                        0 <= j < rest@.len() ==> (#[trigger] rest@[j])@ == all[total - 1 - j],
                    forall|j: int|
                        0 <= j < rest_notes@.len() ==> (#[trigger] rest_notes@[j]).deep_view()
                            == all_notes[total_notes - 1 - j],
                    out.deep_view() + with_notes(
                        all.skip(total - rest@.len()),
                        limit as nat,
                        all_notes.skip(total_notes - rest_notes@.len()),
                    ) == with_notes(all, limit as nat, all_notes),
                decreases rest.len(),
            {
                let ghost here = all.skip(total - rest@.len());
                let ghost here_notes = all_notes.skip(total_notes - rest_notes@.len());
                let ghost before = out.deep_view();
                let content = rest.pop().unwrap();
                assert(here.first() == content@);
                assert(here.drop_first() =~= all.skip(total - rest@.len()));
                if oversize(&content, limit) && rest_notes.len() > 0 {
                    let note = rest_notes.pop().unwrap();
                    assert(here_notes.first() == note.deep_view());
                    assert(here_notes.drop_first() =~= all_notes.skip(
                        total_notes - rest_notes@.len(),
                    ));
                    let kept = match note {
                        Some(text) => Content::Text(text),
                        None => content,
                    };
                    out.push(kept);
                    assert(out.deep_view() =~= before.push(kept@));
                    assert(out.deep_view() + with_notes(
                        here.drop_first(),
                        limit as nat,
                        here_notes.drop_first(),
                    ) =~= before + with_notes(here, limit as nat, here_notes));
                } else {
                    out.push(content);
                    assert(out.deep_view() =~= before.push(content@));
                    assert(out.deep_view() + with_notes(here.drop_first(), limit as nat, here_notes)
                        =~= before + with_notes(here, limit as nat, here_notes));
                }
            }
            assert(all.skip(total as int) =~= Seq::empty());
            assert(out.deep_view() =~= with_notes(all, limit as nat, all_notes));
            Ok(out)
        },
    }
}

/// Where every oversize text was stored and has its note, and no note is itself longer than
/// the limit, nothing that the model gets is longer than the limit; and the handling neither
/// adds nor drops a piece of content.
pub proof fn law_processed_is_bounded(
    contents: Seq<ContentView>,
    limit: nat,
    notes: Seq<Option<Seq<char>>>,
)
    requires
        notes.len() >= oversize_positions(contents, limit).len(),
        forall|i: int|
            0 <= i < notes.len() ==> (#[trigger] notes[i] matches Some(note) && note.len() <= limit),
    ensures
        with_notes(contents, limit, notes).len() == contents.len(),
        forall|i: int|
            0 <= i < contents.len() ==> !is_oversize(
                #[trigger] with_notes(contents, limit, notes)[i],
                limit,
            ),
    decreases contents.len(),
{
    if contents.len() > 0 {
        let rest = contents.drop_first();
        lemma_positions_first(contents, limit);
        let out = with_notes(contents, limit, notes);
        if is_oversize(contents.first(), limit) {
            assert(notes.len() > 0);
            let later = notes.drop_first();
            assert forall|i: int| 0 <= i < later.len() implies (#[trigger] later[i] matches Some(
                note,
            ) && note.len() <= limit) by {
                assert(later[i] == notes[i + 1]);
            }
            law_processed_is_bounded(rest, limit, later);
            assert(notes.first() == notes[0]);
            assert forall|i: int| 0 <= i < contents.len() implies !is_oversize(
                #[trigger] out[i],
                limit,
            ) by {
                if i > 0 {
                    assert(out[i] == with_notes(rest, limit, later)[i - 1]);
                }
            }
        } else {
            law_processed_is_bounded(rest, limit, notes);
            assert forall|i: int| 0 <= i < contents.len() implies !is_oversize(
                #[trigger] out[i],
                limit,
            ) by {
                if i > 0 {
                    assert(out[i] == with_notes(rest, limit, notes)[i - 1]);
                }
            }
        }
    }
}

/// The oversize texts of a list are that of its first content and those of the rest.
proof fn lemma_positions_first(contents: Seq<ContentView>, limit: nat)
    requires
        contents.len() > 0,
    ensures
        oversize_positions(contents, limit).len() == oversize_positions(
            contents.drop_first(),
            limit,
        ).len() + if is_oversize(contents.first(), limit) {
            1nat
        } else {
            0nat
        },
    decreases contents.len(),
{
    if contents.len() == 1 {
        assert(contents.drop_last() =~= Seq::empty());
        assert(contents.drop_first() =~= Seq::empty());
        assert(contents.last() == contents.first());
    } else {
        lemma_positions_first(contents.drop_last(), limit);
        assert(contents.drop_last().drop_first() =~= contents.drop_first().drop_last());
        assert(contents.drop_last().first() == contents.first());
        assert(contents.drop_first().last() == contents.last());
    }
}

} // verus!
