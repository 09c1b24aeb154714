//! What the orders of queries mean: which of two photos comes first.
//!
//! An order is a text that the database reads. How it is read is written down here, for
//! the few expressions that occur, and the orders are proved to be those that their
//! names promise.
use vstd::prelude::*;

use crate::bursts::{
    bursts_text,
    group_for,
    is_close,
    is_clustering,
    is_run,
    times_of,
    BurstRow,
};
use crate::export::{export_text, has_suffix, EXPORT_TAIL};
use crate::filepath::name_of;
use crate::filter::{
    ids_text,
    order_text,
    page_text,
    sort_key,
    CARD_HEAD,
    CARD_MID,
    CARD_TAIL,
    COLOR,
    DAY_KEY,
    DECISION,
    FROM_PHOTOS,
    STARS,
    TIME_TEXT,
};
use crate::text::{dec, joined, opt_view, text_le};

verus! {

// ---------------------------------------------------------------------------
// Reading an order
// ---------------------------------------------------------------------------

/// What an order can look at in a photo: when it was taken by the corrected clock and
/// when its file was changed, its path, its size, its stars and how sharp it is.
pub struct Sortable {
    pub taken: Option<int>,
    pub changed: Option<int>,
    pub path: Seq<char>,
    pub size: int,
    pub stars: Option<int>,
    pub sharpness: Option<int>,
}

impl Sortable {
    /// When the photo was taken, or else when its file was changed.
    pub open spec fn time(self) -> Option<int> {
        match self.taken {
            Some(t) => Some(t),
            None => self.changed,
        }
    }

    /// The stars; a photo without a mark has none.
    pub open spec fn stars_or_none(self) -> int {
        match self.stars {
            Some(n) => n,
            None => 0,
        }
    }
}

/// Less than zero where the first number is smaller, more where it is larger. What is
/// missing is smaller than any number.
pub open spec fn compared(a: Option<int>, b: Option<int>) -> int {
    match (a, b) {
        (Some(x), Some(y)) => x - y,
        (None, Some(_)) => -1,
        (Some(_), None) => 1,
        (None, None) => 0,
    }
}

/// The same for texts, character by character.
pub open spec fn compared_texts(a: Seq<char>, b: Seq<char>) -> int {
    if a == b {
        0
    } else if text_le(a, b) {
        -1
    } else {
        1
    }
}

/// How two photos compare by an expression.
pub open spec fn compared_by(expression: Seq<char>, a: Sortable, b: Sortable) -> int {
    if expression == "COALESCE(p.taken_at_corrected, p.mtime)"@ {
        compared(a.time(), b.time())
    } else if expression == "p.path"@ {
        compared_texts(a.path, b.path)
    } else if expression == "p.file_size"@ {
        a.size - b.size
    } else if expression == "COALESCE(d.stars, 0)"@ {
        a.stars_or_none() - b.stars_or_none()
    } else if expression == "p.sharpness"@ {
        compared(a.sharpness, b.sharpness)
    } else if expression == "(p.sharpness IS NULL)"@ {
        (if a.sharpness is None {
            1int
        } else {
            0
        }) - (if b.sharpness is None {
            1int
        } else {
            0
        })
    } else {
        0
    }
}

/// How two photos compare by a term of an order: an expression, and the direction
/// behind it, which is ascending where none is given.
pub open spec fn compared_by_term(term: Seq<char>, a: Sortable, b: Sortable) -> int {
    if has_suffix(term, " DESC"@) {
        compared_by(term.take(term.len() - 5), b, a)
    } else if has_suffix(term, " ASC"@) {
        compared_by(term.take(term.len() - 4), a, b)
    } else {
        compared_by(term, a, b)
    }
}

/// The first photo comes before the second: by the first term by which they differ.
pub open spec fn comes_first(terms: Seq<Seq<char>>, a: Sortable, b: Sortable) -> bool
    decreases terms.len(),
{
    if terms.len() == 0 {
        false
    } else {
        let c = compared_by_term(terms[0], a, b);
        c < 0 || (c == 0 && comes_first(terms.skip(1), a, b))
    }
}

/// The text asks for an order by these terms.
pub open spec fn asks_for(text: Seq<char>, terms: Seq<Seq<char>>) -> bool {
    text == "ORDER BY "@ + joined(terms, ", "@)
}

// ---------------------------------------------------------------------------
// The orders of the grid
// ---------------------------------------------------------------------------

/// Which of two photos should come first under the name of an order. Photos that are
/// alike go by their paths.
pub open spec fn should_come_first(sort: Seq<char>, a: Sortable, b: Sortable) -> bool {
    let time = compared(a.time(), b.time());
    let path = compared_texts(a.path, b.path);
    let sharp = compared(a.sharpness, b.sharpness);
    if sort == "takenAsc"@ {
        time < 0 || (time == 0 && path < 0)
    } else if sort == "nameAsc"@ {
        path < 0
    } else if sort == "nameDesc"@ {
        path > 0
    } else if sort == "sizeDesc"@ {
        a.size > b.size || (a.size == b.size && path < 0)
    } else if sort == "starsDesc"@ {
        a.stars_or_none() > b.stars_or_none() || (a.stars_or_none() == b.stars_or_none() && path
            < 0)
    } else if sort == "sharpAsc"@ || sort == "sharpDesc"@ {
        // Photos that were not judged come last either way.
        if a.sharpness is None && b.sharpness is Some {
            false
        } else if a.sharpness is Some && b.sharpness is None {
            true
        } else if sort == "sharpAsc"@ {
            sharp < 0 || (sharp == 0 && path < 0)
        } else {
            sharp > 0 || (sharp == 0 && path < 0)
        }
    } else {
        time > 0 || (time == 0 && path < 0)
    }
}

/// The terms of an order.
pub open spec fn terms_of(sort: Seq<char>) -> Seq<Seq<char>> {
    let time = "COALESCE(p.taken_at_corrected, p.mtime)"@;
    let path = "p.path"@;
    if sort == "takenAsc"@ {
        seq![time + " ASC"@, path]
    } else if sort == "nameAsc"@ {
        seq![path + " ASC"@]
    } else if sort == "nameDesc"@ {
        seq![path + " DESC"@]
    } else if sort == "sizeDesc"@ {
        seq!["p.file_size"@ + " DESC"@, path]
    } else if sort == "starsDesc"@ {
        seq!["COALESCE(d.stars, 0)"@ + " DESC"@, path]
    } else if sort == "sharpAsc"@ {
        seq!["(p.sharpness IS NULL)"@, "p.sharpness"@ + " ASC"@, path]
    } else if sort == "sharpDesc"@ {
        seq!["(p.sharpness IS NULL)"@, "p.sharpness"@ + " DESC"@, path]
    } else {
        seq![time + " DESC"@, path]
    }
}

proof fn lemma_joined_terms(a: Seq<char>, b: Seq<char>, c: Seq<char>, sep: Seq<char>)
    ensures
        joined(seq![a], sep) == a,
        joined(seq![a, b], sep) == a + sep + b,
        joined(seq![a, b, c], sep) == a + sep + b + sep + c,
{
    reveal_with_fuel(joined, 4);
    assert(seq![a, b].drop_last() =~= seq![a]);
    assert(seq![a, b, c].drop_last() =~= seq![a, b]);
}

proof fn lemma_first_of_terms(a: Seq<char>, b: Seq<char>, c: Seq<char>)
    ensures
        seq![a].skip(1) == Seq::<Seq<char>>::empty(),
        seq![a, b].skip(1) == seq![b],
        seq![a, b, c].skip(1) == seq![b, c],
{
    assert(seq![a].skip(1) =~= Seq::<Seq<char>>::empty());
    assert(seq![a, b].skip(1) =~= seq![b]);
    assert(seq![a, b, c].skip(1) =~= seq![b, c]);
}

/// An expression with a direction behind it is read as that expression in that
/// direction, and one without is ascending.
proof fn lemma_directions(expression: Seq<char>, a: Sortable, b: Sortable)
    requires
        expression.len() > 5,
        expression.last() != 'C',
    ensures
        compared_by_term(expression + " DESC"@, a, b) == compared_by(expression, b, a),
        compared_by_term(expression + " ASC"@, a, b) == compared_by(expression, a, b),
        compared_by_term(expression, a, b) == compared_by(expression, a, b),
{
    reveal_strlit(" DESC");
    reveal_strlit(" ASC");
    let down = expression + " DESC"@;
    assert(down.skip(down.len() - 5) =~= " DESC"@);
    assert(down.take(down.len() - 5) =~= expression);
    let up = expression + " ASC"@;
    assert(up.skip(up.len() - 4) =~= " ASC"@);
    assert(up.take(up.len() - 4) =~= expression);
    if has_suffix(up, " DESC"@) {
        assert(up.skip(up.len() - 5)[1] == 'D');
        assert(up[up.len() - 4] == ' ');
    }
    if has_suffix(expression, " DESC"@) {
        assert(expression.skip(expression.len() - 5)[4] == 'C');
    }
    if has_suffix(expression, " ASC"@) {
        assert(expression.skip(expression.len() - 4)[3] == 'C');
    }
}

proof fn lemma_expressions()
    ensures
        "COALESCE(p.taken_at_corrected, p.mtime)"@.len() > 5
            && "COALESCE(p.taken_at_corrected, p.mtime)"@.last() == ')',
        "p.path"@.len() == 6 && "p.path"@.last() == 'h',
        "p.file_size"@.len() == 11 && "p.file_size"@.last() == 'e',
        "COALESCE(d.stars, 0)"@.len() == 20 && "COALESCE(d.stars, 0)"@.last() == ')',
        "p.sharpness"@.len() == 11 && "p.sharpness"@.last() == 's',
        "(p.sharpness IS NULL)"@.len() == 21 && "(p.sharpness IS NULL)"@.last() == ')',
        "COALESCE(p.taken_at_corrected, p.mtime)"@.len() == 39,
{
    reveal_strlit("COALESCE(p.taken_at_corrected, p.mtime)");
    reveal_strlit("p.path");
    reveal_strlit("p.file_size");
    reveal_strlit("COALESCE(d.stars, 0)");
    reveal_strlit("p.sharpness");
    reveal_strlit("(p.sharpness IS NULL)");
}

proof fn lemma_terms_compare(sort: Seq<char>, a: Sortable, b: Sortable)
    ensures
        comes_first(terms_of(sort), a, b) <==> should_come_first(sort, a, b),
{
    let time = "COALESCE(p.taken_at_corrected, p.mtime)"@;
    let path = "p.path"@;
    let size = "p.file_size"@;
    let stars = "COALESCE(d.stars, 0)"@;
    let sharp = "p.sharpness"@;
    let judged = "(p.sharpness IS NULL)"@;
    lemma_expressions();
    lemma_directions(time, a, b);
    lemma_directions(path, a, b);
    lemma_directions(size, a, b);
    lemma_directions(stars, a, b);
    lemma_directions(sharp, a, b);
    lemma_directions(judged, a, b);
    assert(compared_texts(a.path, b.path) == -compared_texts(b.path, a.path)) by {
        if a.path != b.path {
            crate::text::lemma_text_le_total(a.path, b.path);
            if text_le(a.path, b.path) && text_le(b.path, a.path) {
                crate::text::lemma_text_le_antisymmetric(a.path, b.path);
            }
        }
    }
    reveal_with_fuel(comes_first, 4);
    let down = " DESC"@;
    let up = " ASC"@;
    lemma_first_of_terms(time + up, path, path);
    lemma_first_of_terms(time + down, path, path);
    lemma_first_of_terms(size + down, path, path);
    lemma_first_of_terms(stars + down, path, path);
    lemma_first_of_terms(judged, sharp + up, path);
    lemma_first_of_terms(judged, sharp + down, path);
    lemma_first_of_terms(sharp + up, path, path);
    lemma_first_of_terms(sharp + down, path, path);
    lemma_first_of_terms(path, path, path);
    lemma_first_of_terms(path + up, path, path);
    lemma_first_of_terms(path + down, path, path);
}

proof fn lemma_order_texts()
    ensures
        asks_for(order_text("takenAsc"@), terms_of("takenAsc"@)),
        asks_for(order_text("nameAsc"@), terms_of("nameAsc"@)),
        asks_for(order_text("nameDesc"@), terms_of("nameDesc"@)),
        asks_for(order_text("sizeDesc"@), terms_of("sizeDesc"@)),
        asks_for(order_text("starsDesc"@), terms_of("starsDesc"@)),
        asks_for(order_text("sharpAsc"@), terms_of("sharpAsc"@)),
        asks_for(order_text("sharpDesc"@), terms_of("sharpDesc"@)),
        "ORDER BY COALESCE(p.taken_at_corrected, p.mtime) DESC, p.path"@ == "ORDER BY "@ + joined(
            seq!["COALESCE(p.taken_at_corrected, p.mtime)"@ + " DESC"@, "p.path"@],
            ", "@,
        ),
{
    let time = "COALESCE(p.taken_at_corrected, p.mtime)"@;
    let path = "p.path"@;
    let sep = ", "@;
    lemma_joined_terms(time + " ASC"@, path, path, sep);
    lemma_joined_terms(time + " DESC"@, path, path, sep);
    lemma_joined_terms(path + " ASC"@, path, path, sep);
    lemma_joined_terms(path + " DESC"@, path, path, sep);
    lemma_joined_terms("p.file_size"@ + " DESC"@, path, path, sep);
    lemma_joined_terms("COALESCE(d.stars, 0)"@ + " DESC"@, path, path, sep);
    lemma_joined_terms("(p.sharpness IS NULL)"@, "p.sharpness"@ + " ASC"@, path, sep);
    lemma_joined_terms("(p.sharpness IS NULL)"@, "p.sharpness"@ + " DESC"@, path, sep);
    reveal_strlit("ORDER BY ");
    reveal_strlit(", ");
    reveal_strlit(" ASC");
    reveal_strlit(" DESC");
    reveal_strlit("p.path");
    reveal_strlit("COALESCE(p.taken_at_corrected, p.mtime)");
    reveal_strlit("p.file_size");
    reveal_strlit("COALESCE(d.stars, 0)");
    reveal_strlit("p.sharpness");
    reveal_strlit("(p.sharpness IS NULL)");
    lemma_sort_names_differ();
    assert("ORDER BY COALESCE(p.taken_at_corrected, p.mtime) ASC, p.path"@ =~= "ORDER BY "@ + (time
        + " ASC"@ + sep + path)) by {
        reveal_strlit("ORDER BY COALESCE(p.taken_at_corrected, p.mtime) ASC, p.path");
    }
    assert("ORDER BY COALESCE(p.taken_at_corrected, p.mtime) DESC, p.path"@ =~= "ORDER BY "@ + (time
        + " DESC"@ + sep + path)) by {
        reveal_strlit("ORDER BY COALESCE(p.taken_at_corrected, p.mtime) DESC, p.path");
    }
    assert("ORDER BY p.path ASC"@ =~= "ORDER BY "@ + (path + " ASC"@)) by {
        reveal_strlit("ORDER BY p.path ASC");
    }
    assert("ORDER BY p.path DESC"@ =~= "ORDER BY "@ + (path + " DESC"@)) by {
        reveal_strlit("ORDER BY p.path DESC");
    }
    assert("ORDER BY p.file_size DESC, p.path"@ =~= "ORDER BY "@ + ("p.file_size"@ + " DESC"@ + sep
        + path)) by {
        reveal_strlit("ORDER BY p.file_size DESC, p.path");
    }
    assert("ORDER BY COALESCE(d.stars, 0) DESC, p.path"@ =~= "ORDER BY "@ + ("COALESCE(d.stars, 0)"@
        + " DESC"@ + sep + path)) by {
        reveal_strlit("ORDER BY COALESCE(d.stars, 0) DESC, p.path");
    }
    assert("ORDER BY (p.sharpness IS NULL), p.sharpness ASC, p.path"@ =~= "ORDER BY "@ + (
    "(p.sharpness IS NULL)"@ + sep + ("p.sharpness"@ + " ASC"@) + sep + path)) by {
        reveal_strlit("ORDER BY (p.sharpness IS NULL), p.sharpness ASC, p.path");
    }
    assert("ORDER BY (p.sharpness IS NULL), p.sharpness DESC, p.path"@ =~= "ORDER BY "@ + (
    "(p.sharpness IS NULL)"@ + sep + ("p.sharpness"@ + " DESC"@) + sep + path)) by {
        reveal_strlit("ORDER BY (p.sharpness IS NULL), p.sharpness DESC, p.path");
    }
}

proof fn lemma_sort_names_differ()
    ensures
        "takenAsc"@ != "takenDesc"@,
        "nameAsc"@ != "takenAsc"@,
        "nameDesc"@ != "takenAsc"@ && "nameDesc"@ != "nameAsc"@,
        "sizeDesc"@ != "takenAsc"@ && "sizeDesc"@ != "nameAsc"@ && "sizeDesc"@ != "nameDesc"@,
        "starsDesc"@ != "takenAsc"@ && "starsDesc"@ != "nameAsc"@ && "starsDesc"@ != "nameDesc"@
            && "starsDesc"@ != "sizeDesc"@,
        "sharpAsc"@ != "takenAsc"@ && "sharpAsc"@ != "nameAsc"@ && "sharpAsc"@ != "nameDesc"@
            && "sharpAsc"@ != "sizeDesc"@ && "sharpAsc"@ != "starsDesc"@,
        "sharpDesc"@ != "takenAsc"@ && "sharpDesc"@ != "nameAsc"@ && "sharpDesc"@ != "nameDesc"@
            && "sharpDesc"@ != "sizeDesc"@ && "sharpDesc"@ != "starsDesc"@ && "sharpDesc"@
            != "sharpAsc"@,
        "takenDesc"@ != "nameAsc"@ && "takenDesc"@ != "nameDesc"@ && "takenDesc"@ != "sizeDesc"@
            && "takenDesc"@ != "starsDesc"@ && "takenDesc"@ != "sharpAsc"@ && "takenDesc"@
            != "sharpDesc"@,
{
    reveal_strlit("takenAsc");
    reveal_strlit("takenDesc");
    reveal_strlit("nameAsc");
    reveal_strlit("nameDesc");
    reveal_strlit("sizeDesc");
    reveal_strlit("starsDesc");
    reveal_strlit("sharpAsc");
    reveal_strlit("sharpDesc");
    assert("takenAsc"@.len() == 8 && "takenAsc"@[0] == 't');
    assert("takenDesc"@.len() == 9 && "takenDesc"@[0] == 't');
    assert("nameAsc"@.len() == 7);
    assert("nameDesc"@.len() == 8 && "nameDesc"@[0] == 'n');
    assert("sizeDesc"@.len() == 8 && "sizeDesc"@[0] == 's' && "sizeDesc"@[1] == 'i');
    assert("starsDesc"@.len() == 9 && "starsDesc"@[0] == 's' && "starsDesc"@[1] == 't');
    assert("sharpAsc"@.len() == 8 && "sharpAsc"@[0] == 's' && "sharpAsc"@[1] == 'h');
    assert("sharpDesc"@.len() == 9 && "sharpDesc"@[0] == 's' && "sharpDesc"@[1] == 'h');
}

/// An order puts photos as its name says. Read as the database reads it, the text asks
/// for the earliest first under `takenAsc`, for the latest first under `takenDesc`,
/// under a name that is not known and where none is given, and so on.
pub proof fn law_orders_are_as_named(sort: Seq<char>)
    ensures
        exists|terms: Seq<Seq<char>>|
            #[trigger] asks_for(order_text(sort), terms) && forall|a: Sortable, b: Sortable|
                #[trigger] comes_first(terms, a, b) <==> should_come_first(sort, a, b),
        order_text(sort_key(None)) == order_text("takenDesc"@),
{
    lemma_order_texts();
    lemma_sort_names_differ();
    assert(asks_for(order_text(sort), terms_of(sort)));
    assert forall|a: Sortable, b: Sortable| #[trigger] comes_first(terms_of(sort), a, b)
        <==> should_come_first(sort, a, b) by {
        lemma_terms_compare(sort, a, b);
    }
}

/// Of two photos, the one that was taken earlier comes first under `takenAsc`, and last
/// where no order is given; a photo without a capture time goes by the time of change of
/// its file.
pub proof fn law_times_order_photos(a: Sortable, b: Sortable)
    requires
        a.time() is Some,
        b.time() is Some,
        a.time()->Some_0 < b.time()->Some_0,
    ensures
        exists|terms: Seq<Seq<char>>|
            #[trigger] asks_for(order_text("takenAsc"@), terms) && comes_first(terms, a, b)
                && !comes_first(terms, b, a),
        exists|terms: Seq<Seq<char>>|
            #[trigger] asks_for(order_text(sort_key(None)), terms) && comes_first(terms, b, a)
                && !comes_first(terms, a, b),
{
    lemma_order_texts();
    lemma_sort_names_differ();
    assert(asks_for(order_text("takenAsc"@), terms_of("takenAsc"@)));
    lemma_terms_compare("takenAsc"@, a, b);
    lemma_terms_compare("takenAsc"@, b, a);
    assert(order_text(sort_key(None)) == order_text("takenDesc"@));
    assert(asks_for(order_text(sort_key(None)), terms_of("takenDesc"@)));
    lemma_terms_compare("takenDesc"@, a, b);
    lemma_terms_compare("takenDesc"@, b, a);
}

/// The queries that list photos keep their condition, and put the order behind it; a page
/// is cut out of the list in that order.
pub proof fn law_lists_are_in_order(w: Seq<char>, order: Seq<char>)
    ensures
        has_suffix(page_text(w, order), " WHERE "@ + w + " "@ + order + " LIMIT ? OFFSET ?"@),
        has_suffix(ids_text(w, order), " WHERE "@ + w + " "@ + order),
        has_suffix(export_text(w, order), " WHERE "@ + w + " "@ + order),
{
    let tail = " WHERE "@ + w + " "@ + order;
    lemma_ends_with(ids_text(w, order), "SELECT p.id "@ + FROM_PHOTOS@, tail);
    lemma_ends_with(
        export_text(w, order),
        "SELECT p.pair_key, "@ + DECISION@ + ", "@ + STARS@ + ", "@ + TIME_TEXT@ + EXPORT_TAIL@
            + FROM_PHOTOS@,
        tail,
    );
    lemma_ends_with(
        page_text(w, order),
        CARD_HEAD@ + TIME_TEXT@ + ", "@ + DAY_KEY@ + CARD_MID@ + DECISION@ + ", "@ + STARS@ + ", "@
            + COLOR@ + CARD_TAIL@ + FROM_PHOTOS@,
        tail + " LIMIT ? OFFSET ?"@,
    );
}

proof fn lemma_ends_with(text: Seq<char>, head: Seq<char>, tail: Seq<char>)
    requires
        text =~= head + tail,
    ensures
        has_suffix(text, tail),
{
    assert(text.skip(text.len() - tail.len()) =~= tail);
}

// ---------------------------------------------------------------------------
// The order of bursts
// ---------------------------------------------------------------------------

/// The columns of the query for bursts, in their order: the number and the key of a
/// shot, its time, and what is shown of it.
pub open spec fn burst_columns() -> Seq<Seq<char>> {
    seq![
        "MIN(p.id)"@,
        "p.pair_key"@,
        "MIN(COALESCE(p.taken_at_corrected, p.mtime))"@,
        "MIN("@ + TIME_TEXT@ + ")"@,
        DECISION@,
        STARS@,
        "MIN(p.path)"@,
    ]
}

/// A query that lists its rows by one of its columns, counted from 1, the smallest value
/// first.
pub open spec fn lists_up_by(text: Seq<char>, column: nat) -> bool {
    has_suffix(text, " ORDER BY "@ + dec(column))
}

/// A query that lists its rows by one of its columns, the largest value first.
pub open spec fn lists_down_by(text: Seq<char>, column: nat) -> bool {
    has_suffix(text, " ORDER BY "@ + dec(column) + " DESC"@)
}

proof fn lemma_seven(
    a: Seq<char>,
    b: Seq<char>,
    c: Seq<char>,
    d: Seq<char>,
    e: Seq<char>,
    f: Seq<char>,
    g: Seq<char>,
    sep: Seq<char>,
)
    ensures
        joined(seq![a, b, c, d, e, f, g], sep) == a + sep + b + sep + c + sep + d + sep + e + sep
            + f + sep + g,
{
    reveal_with_fuel(joined, 8);
    assert(seq![a, b, c, d, e, f, g].drop_last() =~= seq![a, b, c, d, e, f]);
    assert(seq![a, b, c, d, e, f].drop_last() =~= seq![a, b, c, d, e]);
    assert(seq![a, b, c, d, e].drop_last() =~= seq![a, b, c, d]);
    assert(seq![a, b, c, d].drop_last() =~= seq![a, b, c]);
    assert(seq![a, b, c].drop_last() =~= seq![a, b]);
    assert(seq![a, b].drop_last() =~= seq![a]);
}

/// The query for bursts gives one row for each shot that has a time, with its time in the
/// third column, and lists them by that column, the earliest first.
pub proof fn law_bursts_are_listed_by_time(w: Seq<char>)
    ensures
        bursts_text(w) == "SELECT "@ + joined(burst_columns(), ", "@) + " "@ + FROM_PHOTOS@
            + " WHERE "@ + w + " AND COALESCE(p.taken_at_corrected, p.mtime) IS NOT NULL"@
            + " GROUP BY p.pair_key"@ + " ORDER BY "@ + dec(3),
        lists_up_by(bursts_text(w), 3),
        !lists_down_by(bursts_text(w), 3),
        burst_columns()[2] == "MIN(COALESCE(p.taken_at_corrected, p.mtime))"@,
{
    let c = burst_columns();
    let sep = ", "@;
    lemma_seven(c[0], c[1], c[2], c[3], c[4], c[5], c[6], sep);
    assert(c =~= seq![c[0], c[1], c[2], c[3], c[4], c[5], c[6]]);
    reveal_strlit(
        "SELECT MIN(p.id), p.pair_key, MIN(COALESCE(p.taken_at_corrected, p.mtime)), MIN(",
    );
    reveal_strlit("SELECT ");
    reveal_strlit("MIN(p.id)");
    reveal_strlit("p.pair_key");
    reveal_strlit("MIN(COALESCE(p.taken_at_corrected, p.mtime))");
    reveal_strlit("MIN(");
    reveal_strlit(")");
    reveal_strlit(", ");
    reveal_strlit("), ");
    reveal_strlit(", MIN(p.path) ");
    reveal_strlit("MIN(p.path)");
    reveal_strlit(" ");
    reveal_strlit(
        " AND COALESCE(p.taken_at_corrected, p.mtime) IS NOT NULL GROUP BY p.pair_key ORDER BY 3",
    );
    reveal_strlit(" AND COALESCE(p.taken_at_corrected, p.mtime) IS NOT NULL");
    reveal_strlit(" GROUP BY p.pair_key");
    reveal_strlit(" ORDER BY ");
    reveal_strlit(" DESC");
    assert(dec(3) =~= seq!['3']);
    assert("SELECT MIN(p.id), p.pair_key, MIN(COALESCE(p.taken_at_corrected, p.mtime)), MIN("@
        =~= "SELECT "@ + c[0] + sep + c[1] + sep + c[2] + sep + "MIN("@);
    assert("), "@ =~= ")"@ + sep);
    assert(", MIN(p.path) "@ =~= sep + "MIN(p.path)"@ + " "@);
    assert(" AND COALESCE(p.taken_at_corrected, p.mtime) IS NOT NULL GROUP BY p.pair_key ORDER BY 3"@
        =~= " AND COALESCE(p.taken_at_corrected, p.mtime) IS NOT NULL"@ + " GROUP BY p.pair_key"@
        + " ORDER BY "@ + dec(3));
    let text = bursts_text(w);
    assert(text =~= "SELECT "@ + joined(c, sep) + " "@ + FROM_PHOTOS@ + " WHERE "@ + w
        + " AND COALESCE(p.taken_at_corrected, p.mtime) IS NOT NULL"@ + " GROUP BY p.pair_key"@
        + " ORDER BY "@ + dec(3));
    let tail = " ORDER BY "@ + dec(3);
    assert(text.skip(text.len() - tail.len()) =~= tail);
    assert(text.last() == '3');
    let down = " ORDER BY "@ + dec(3) + " DESC"@;
    if has_suffix(text, down) {
        assert(text.skip(text.len() - down.len()).last() == 'C');
    }
}

/// The rows come as a query asks for them, by the column with the time.
pub open spec fn come_as_asked(rows: Seq<BurstRow>, text: Seq<char>) -> bool {
    &&& lists_up_by(text, 3) ==> forall|i: int, j: int|
        0 <= i < j < rows.len() ==> (#[trigger] rows[i]).time <= (#[trigger] rows[j]).time
    &&& lists_down_by(text, 3) ==> forall|i: int, j: int|
        0 <= i < j < rows.len() ==> (#[trigger] rows[i]).time >= (#[trigger] rows[j]).time
}

/// Among the rows of the query for bursts, the photos of a burst follow on each other in
/// time: the last is not earlier than the first, no two neighbours are further apart than
/// the gap, and the burst before ended, and the one behind starts, more than the gap away.
pub proof fn law_bursts_follow_in_time(
    rows: Seq<BurstRow>,
    w: Seq<char>,
    clusters: Seq<Seq<usize>>,
    gap: int,
    g: int,
)
    requires
        come_as_asked(rows, bursts_text(w)),
        is_clustering(clusters, times_of(rows), rows.len() as int, gap),
        rows.len() <= usize::MAX,
        0 <= g < clusters.len(),
    ensures
        group_for(rows, clusters[g]).span_secs >= 0,
        forall|i: int, j: int|
            0 <= i < j < clusters[g].len() ==> rows[(#[trigger] clusters[g][i]) as int].time
                <= rows[(#[trigger] clusters[g][j]) as int].time,
        forall|i: int|
            0 < i < clusters[g].len() ==> rows[(#[trigger] clusters[g][i]) as int].time
                - rows[clusters[g][i - 1] as int].time <= gap,
        g + 1 < clusters.len() ==> rows[clusters[g + 1][0] as int].time
            - rows[clusters[g].last() as int].time > gap,
{
    law_bursts_are_listed_by_time(w);
    let times = times_of(rows);
    let c = clusters[g];
    lemma_cluster_inside(clusters, times, rows.len() as int, gap, g);
    assert(is_run(c) && is_close(c, times, gap));
    assert(c[0] <= c.last()) by {
        assert(c[c.len() - 1] == c[0] + (c.len() - 1));
    }
    assert forall|i: int, j: int| 0 <= i < j < c.len() implies rows[(#[trigger] c[i]) as int].time
        <= rows[(#[trigger] c[j]) as int].time by {
        assert(c[i] == c[0] + i && c[j] == c[0] + j);
    }
    assert forall|i: int| 0 < i < c.len() implies rows[(#[trigger] c[i]) as int].time - rows[c[i
        - 1] as int].time <= gap by {
        assert(c[i] == c[0] + i && c[i - 1] == c[0] + (i - 1));
        assert(times[c[0] + (i - 1) + 1] - times[c[i - 1] as int] <= gap);
    }
    if c.len() > 1 {
        assert(c[0] == c[0] + 0 && c[c.len() - 1] == c[0] + (c.len() - 1));
        assert(rows[c[0] as int].time <= rows[c.last() as int].time);
    }
    if g + 1 < clusters.len() {
        lemma_cluster_inside(clusters, times, rows.len() as int, gap, g + 1);
        let n = clusters[g + 1];
        assert(n[0] == c[0] + c.len());
        assert(c.last() == c[0] + (c.len() - 1));
        assert(times[n[0] as int] - times[n[0] - 1] > gap);
    }
}

proof fn lemma_cluster_inside(
    clusters: Seq<Seq<usize>>,
    times: Seq<i64>,
    n: int,
    gap: int,
    g: int,
)
    requires
        is_clustering(clusters, times, n, gap),
        0 <= g < clusters.len(),
    ensures
        clusters[g][0] + clusters[g].len() <= n,
    decreases clusters.len() - g,
{
    if g < clusters.len() - 1 {
        lemma_cluster_inside(clusters, times, n, gap, g + 1);
        assert(clusters[g + 1][0] == clusters[g][0] + clusters[g].len());
        assert(is_run(clusters[g + 1]));
    } else {
        assert(clusters[g] == clusters.last());
    }
}

/// A burst is known by its first photo, and lists its photos in the order of the rows,
/// each with its own number, key, name, time, decision and stars.
pub proof fn law_bursts_list_their_photos(rows: Seq<BurstRow>, c: Seq<usize>, k: int)
    requires
        0 <= k < c.len(),
        forall|i: int| 0 <= i < c.len() ==> #[trigger] c[i] < rows.len(),
    ensures
        ({
            let g = group_for(rows, c);
            let row = rows[c[k] as int];
            &&& g.size == c.len()
            &&& g.members.len() == c.len()
            &&& g.key == rows[c[0] as int].pair_key@
            &&& g.start_text == opt_view(rows[c[0] as int].time_text)
            &&& g.members[0].pair_key == g.key
            &&& g.members[0].time_text == g.start_text
            &&& g.members[k].id == row.id
            &&& g.members[k].pair_key == row.pair_key@
            &&& g.members[k].time_text == opt_view(row.time_text)
            &&& g.members[k].decision == row.decision@
            &&& g.members[k].stars == row.stars
            &&& name_of(row.path@) matches Some(n) ==> g.members[k].name == n
            &&& i64::MIN <= rows[c.last() as int].time - rows[c[0] as int].time <= i64::MAX
                ==> g.span_secs == rows[c.last() as int].time - rows[c[0] as int].time
        }),
{
}

// ---------------------------------------------------------------------------
// Columns
// ---------------------------------------------------------------------------

/// The first columns of a card: what the photo is, and whether its shot has a RAW file and a
/// JPEG file.
pub open spec fn card_head_columns() -> Seq<Seq<char>> {
    seq![
        "p.id"@,
        "p.pair_key"@,
        "p.path"@,
        "p.file_kind"@,
        "(SELECT MAX(CASE WHEN q.file_kind = 'raw' THEN 1 ELSE 0 END) FROM photos q WHERE q.pair_key = p.pair_key)"@,
        "(SELECT MAX(CASE WHEN q.file_kind = 'jpeg' THEN 1 ELSE 0 END) FROM photos q WHERE q.pair_key = p.pair_key)"@,
    ]
}

/// The columns of a card behind its times: the camera and how the photo was taken.
pub open spec fn card_mid_columns() -> Seq<Seq<char>> {
    seq![
        "p.camera_model"@,
        "p.camera_serial"@,
        "p.lens"@,
        "p.focal_len"@,
        "p.aperture"@,
        "p.shutter"@,
        "p.iso"@,
        "p.file_size"@,
        "p.decode_path"@,
    ]
}

/// The last columns of a card, behind the marks: what is known of the picture.
pub open spec fn card_tail_columns() -> Seq<Seq<char>> {
    seq![
        "p.sharpness"@,
        "p.overexposed"@,
        "p.underexposed"@,
        "p.faces"@,
        "p.eye_ratio"@,
    ]
}

/// The columns of a shot to export, behind its marks and its time.
pub open spec fn export_tail_columns() -> Seq<Seq<char>> {
    seq![
        "p.camera_model"@,
        "p.lens"@,
        "p.focal_len"@,
        "p.aperture"@,
        "p.shutter"@,
        "p.iso"@,
    ]
}

/// The columns of the cards in the grid and of the shots to export, by name and in the order
/// in which they are read.
pub proof fn law_columns_are_read_by_name()
    ensures
        CARD_HEAD@ == "SELECT "@ + joined(card_head_columns(), ", "@) + ", "@,
        CARD_MID@ == ", "@ + joined(card_mid_columns(), ", "@) + ", "@,
        CARD_TAIL@ == ", "@ + joined(card_tail_columns(), ", "@) + " "@,
        EXPORT_TAIL@ == ", "@ + joined(export_tail_columns(), ", "@) + " "@,
{
    lemma_card_head();
    lemma_card_mid();
    lemma_card_tail();
    lemma_export_tail();
}

proof fn lemma_card_head()
    ensures
        CARD_HEAD@ == "SELECT "@ + joined(card_head_columns(), ", "@) + ", "@,
{
    let c = card_head_columns();
    let sep = ", "@;
    reveal_strlit("SELECT p.id, p.pair_key, p.path, p.file_kind, (SELECT MAX(CASE WHEN q.file_kind = 'raw' THEN 1 ELSE 0 END) FROM photos q WHERE q.pair_key = p.pair_key), (SELECT MAX(CASE WHEN q.file_kind = 'jpeg' THEN 1 ELSE 0 END) FROM photos q WHERE q.pair_key = p.pair_key), ");
    reveal_strlit("p.id");
    reveal_strlit("p.pair_key");
    reveal_strlit("p.path");
    reveal_strlit("p.file_kind");
    reveal_strlit("(SELECT MAX(CASE WHEN q.file_kind = 'raw' THEN 1 ELSE 0 END) FROM photos q WHERE q.pair_key = p.pair_key)");
    reveal_strlit("(SELECT MAX(CASE WHEN q.file_kind = 'jpeg' THEN 1 ELSE 0 END) FROM photos q WHERE q.pair_key = p.pair_key)");
    reveal_strlit("SELECT ");
    reveal_strlit(", ");
    reveal_strlit(" ");
    reveal_with_fuel(joined, 7);
    assert(c.take(6).drop_last() =~= c.take(5));
    assert(c.take(5).drop_last() =~= c.take(4));
    assert(c.take(4).drop_last() =~= c.take(3));
    assert(c.take(3).drop_last() =~= c.take(2));
    assert(c.take(2).drop_last() =~= c.take(1));
    assert(c.take(6) =~= c);
    assert(joined(c.take(1), sep) == c[0]);
    assert(joined(c.take(2), sep) == joined(c.take(1), sep) + sep + c[1]);
    assert(joined(c.take(3), sep) == joined(c.take(2), sep) + sep + c[2]);
    assert(joined(c.take(4), sep) == joined(c.take(3), sep) + sep + c[3]);
    assert(joined(c.take(5), sep) == joined(c.take(4), sep) + sep + c[4]);
    assert(joined(c.take(6), sep) == joined(c.take(5), sep) + sep + c[5]);
    assert(CARD_HEAD@ =~= "SELECT "@ + joined(c, sep) + ", "@);
}

proof fn lemma_card_mid()
    ensures
        CARD_MID@ == ", "@ + joined(card_mid_columns(), ", "@) + ", "@,
{
    let c = card_mid_columns();
    let sep = ", "@;
    reveal_strlit(", p.camera_model, p.camera_serial, p.lens, p.focal_len, p.aperture, p.shutter, p.iso, p.file_size, p.decode_path, ");
    reveal_strlit("p.camera_model");
    reveal_strlit("p.camera_serial");
    reveal_strlit("p.lens");
    reveal_strlit("p.focal_len");
    reveal_strlit("p.aperture");
    reveal_strlit("p.shutter");
    reveal_strlit("p.iso");
    reveal_strlit("p.file_size");
    reveal_strlit("p.decode_path");
    reveal_strlit("SELECT ");
    reveal_strlit(", ");
    reveal_strlit(" ");
    reveal_with_fuel(joined, 10);
    assert(c.take(9).drop_last() =~= c.take(8));
    assert(c.take(8).drop_last() =~= c.take(7));
    assert(c.take(7).drop_last() =~= c.take(6));
    assert(c.take(6).drop_last() =~= c.take(5));
    assert(c.take(5).drop_last() =~= c.take(4));
    assert(c.take(4).drop_last() =~= c.take(3));
    assert(c.take(3).drop_last() =~= c.take(2));
    assert(c.take(2).drop_last() =~= c.take(1));
    assert(c.take(9) =~= c);
    assert(joined(c.take(1), sep) == c[0]);
    assert(joined(c.take(2), sep) == joined(c.take(1), sep) + sep + c[1]);
    assert(joined(c.take(3), sep) == joined(c.take(2), sep) + sep + c[2]);
    assert(joined(c.take(4), sep) == joined(c.take(3), sep) + sep + c[3]);
    assert(joined(c.take(5), sep) == joined(c.take(4), sep) + sep + c[4]);
    assert(joined(c.take(6), sep) == joined(c.take(5), sep) + sep + c[5]);
    assert(joined(c.take(7), sep) == joined(c.take(6), sep) + sep + c[6]);
    assert(joined(c.take(8), sep) == joined(c.take(7), sep) + sep + c[7]);
    assert(joined(c.take(9), sep) == joined(c.take(8), sep) + sep + c[8]);
    assert(CARD_MID@ =~= ", "@ + joined(c, sep) + ", "@);
}

proof fn lemma_card_tail()
    ensures
        CARD_TAIL@ == ", "@ + joined(card_tail_columns(), ", "@) + " "@,
{
    let c = card_tail_columns();
    let sep = ", "@;
    reveal_strlit(", p.sharpness, p.overexposed, p.underexposed, p.faces, p.eye_ratio ");
    reveal_strlit("p.sharpness");
    reveal_strlit("p.overexposed");
    reveal_strlit("p.underexposed");
    reveal_strlit("p.faces");
    reveal_strlit("p.eye_ratio");
    reveal_strlit("SELECT ");
    reveal_strlit(", ");
    reveal_strlit(" ");
    reveal_with_fuel(joined, 6);
    assert(c.take(5).drop_last() =~= c.take(4));
    assert(c.take(4).drop_last() =~= c.take(3));
    assert(c.take(3).drop_last() =~= c.take(2));
    assert(c.take(2).drop_last() =~= c.take(1));
    assert(c.take(5) =~= c);
    assert(joined(c.take(1), sep) == c[0]);
    assert(joined(c.take(2), sep) == joined(c.take(1), sep) + sep + c[1]);
    assert(joined(c.take(3), sep) == joined(c.take(2), sep) + sep + c[2]);
    assert(joined(c.take(4), sep) == joined(c.take(3), sep) + sep + c[3]);
    assert(joined(c.take(5), sep) == joined(c.take(4), sep) + sep + c[4]);
    assert(CARD_TAIL@ =~= ", "@ + joined(c, sep) + " "@);
}

proof fn lemma_export_tail()
    ensures
        EXPORT_TAIL@ == ", "@ + joined(export_tail_columns(), ", "@) + " "@,
{
    let c = export_tail_columns();
    let sep = ", "@;
    reveal_strlit(", p.camera_model, p.lens, p.focal_len, p.aperture, p.shutter, p.iso ");
    reveal_strlit("p.camera_model");
    reveal_strlit("p.lens");
    reveal_strlit("p.focal_len");
    reveal_strlit("p.aperture");
    reveal_strlit("p.shutter");
    reveal_strlit("p.iso");
    reveal_strlit("SELECT ");
    reveal_strlit(", ");
    reveal_strlit(" ");
    reveal_with_fuel(joined, 7);
    assert(c.take(6).drop_last() =~= c.take(5));
    assert(c.take(5).drop_last() =~= c.take(4));
    assert(c.take(4).drop_last() =~= c.take(3));
    assert(c.take(3).drop_last() =~= c.take(2));
    assert(c.take(2).drop_last() =~= c.take(1));
    assert(c.take(6) =~= c);
    assert(joined(c.take(1), sep) == c[0]);
    assert(joined(c.take(2), sep) == joined(c.take(1), sep) + sep + c[1]);
    assert(joined(c.take(3), sep) == joined(c.take(2), sep) + sep + c[2]);
    assert(joined(c.take(4), sep) == joined(c.take(3), sep) + sep + c[3]);
    assert(joined(c.take(5), sep) == joined(c.take(4), sep) + sep + c[4]);
    assert(joined(c.take(6), sep) == joined(c.take(5), sep) + sep + c[5]);
    assert(EXPORT_TAIL@ =~= ", "@ + joined(c, sep) + " "@);
}

} // verus!
