//! The browse workspace: the cards whose term matches the search box, and their tiles.

use vstd::prelude::*;
use crate::models::{Card, CardModel};
use crate::selection::indices_where;
use crate::text::{
    contains_seq, decimal, decimal_string, str_contains, to_lowercase, trim, trim_str,
    unicode_lowercase,
};

verus! {

/// A card's term as text, empty when it has none.
pub open spec fn term_text(c: CardModel) -> Seq<char> {
    match c.term {
        Some(t) => t,
        None => Seq::<char>::empty(),
    }
}

/// Whether the browse workspace shows a card for the search text `search` (trimmed and
/// lowercased): every card for an empty search, else the cards whose lowercased term
/// contains it.
pub open spec fn browse_shows(c: CardModel, search: Seq<char>) -> bool {
    search.len() == 0 || contains_seq(unicode_lowercase(term_text(c)), search)
}

/// The search text as the browse workspace compares it: trimmed and lowercased.
pub open spec fn browse_search(query: Seq<char>) -> Seq<char> {
    unicode_lowercase(trim(query))
}

/// The positions of the cards the browse workspace shows for the search box text `query`,
/// in order.
pub fn browse_matches(cards: &Vec<Card>, query: &str) -> (r: Vec<usize>)
    ensures
        r@ == indices_where(
            cards.deep_view(),
            |c: CardModel| browse_shows(c, browse_search(query@)),
        ),
{
    let trimmed = trim_str(query);
    let search = to_lowercase(trimmed.as_str());
    let ghost p = |c: CardModel| browse_shows(c, browse_search(query@));
    let mut out: Vec<usize> = Vec::new();
    let mut i: usize = 0;
    while i < cards.len()
        invariant
            i <= cards@.len(),
            search@ == browse_search(query@),
            p == (|c: CardModel| browse_shows(c, browse_search(query@))),
            out@ == indices_where(cards.deep_view().take(i as int), p),
        decreases cards@.len() - i,
    {
        let ghost prefix = cards.deep_view().take(i as int);
        let term = match &cards[i].term {
            Some(t) => to_lowercase(t.as_str()),
            None => to_lowercase(""),
        };
        proof {
            reveal_strlit("");
            assert(""@ =~= Seq::<char>::empty());
        }
        let shows = search.as_str().is_empty() || str_contains(term.as_str(), search.as_str());
        if shows {
            out.push(i);
        }
        i = i + 1;
        proof {
            let next = cards.deep_view().take(i as int);
            assert(next.drop_last() =~= prefix);
            assert(next.last() == cards@[i - 1].deep_view());
        }
    }
    proof {
        assert(cards.deep_view().take(cards@.len() as int) =~= cards.deep_view());
    }
    out
}

/// A tile's label: the card's number from 1 and its term, `(Untitled)` without one.
pub open spec fn tile_label(index: nat, term: Option<Seq<char>>) -> Seq<char> {
    decimal(index + 1) + seq![':', ' '] + match term {
        Some(t) => t,
        None => "(Untitled)"@,
    }
}

/// The label of the tile of the card at position `index` with term `term`.
pub fn browse_tile_label(index: usize, term: &Option<String>) -> (r: String)
    requires
        index < usize::MAX,
    ensures
        r@ == tile_label(index as nat, term.deep_view()),
{
    let mut r = decimal_string(index + 1);
    r.append(": ");
    match term {
        Some(t) => r.append(t.as_str()),
        None => r.append("(Untitled)"),
    }
    proof {
        reveal_strlit(": ");
        assert(r@ =~= tile_label(index as nat, term.deep_view()));
    }
    r
}

} // verus!
