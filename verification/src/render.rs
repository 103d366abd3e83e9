//! The menu renderer: formats resolved line elements as display text, with
//! word-wrapped descriptions, fixed indentation and optional price tiers.

use vstd::prelude::*;
use crate::model::{LineElement, Meal, MealPrice};

verus! {

/// What `textwrap::fill` returns for the given text and width: the text
/// word-wrapped to lines of at most `width` display columns, joined with
/// newlines. A function of its arguments alone.
pub uninterp spec fn fill_of(s: Seq<char>, width: int) -> Seq<char>;

/// What `textwrap::indent` returns for the given text and prefix: each line
/// prefixed, empty lines kept empty. A function of its arguments alone.
pub uninterp spec fn indent_of(s: Seq<char>, prefix: Seq<char>) -> Seq<char>;

/// Relies on `textwrap::fill`: wraps a line of text at the given width.
#[verifier::external_body]
fn fill_text(s: &str, width: usize) -> (r: String)
    ensures
        r@ == fill_of(s@, width as int),
{
    textwrap::fill(s, width)
}

/// Relies on `textwrap::indent`: indents each line by the given prefix.
#[verifier::external_body]
fn indent_text(s: &str, prefix: &str) -> (r: String)
    ensures
        r@ == indent_of(s@, prefix@),
{
    textwrap::indent(s, prefix)
}

/// The width a meal description is word-wrapped to.
pub const DESCRIPTION_WIDTH: usize = 40;

/// The price tiers' display texts joined with `" / "` in their given order.
pub open spec fn spec_join_prices(prices: Seq<MealPrice>) -> Seq<char>
    decreases prices.len(),
{
    if prices.len() == 0 {
        Seq::empty()
    } else if prices.len() == 1 {
        prices[0].price@
    } else {
        spec_join_prices(prices.drop_last()) + " / "@ + prices.last().price@
    }
}

/// Joins the price tiers of a meal with `" / "`, preserving input order.
pub fn join_prices(prices: &Vec<MealPrice>) -> (r: String)
    ensures
        r@ == spec_join_prices(prices@),
{
    if prices.len() == 0 {
        return String::new();
    }
    let mut out = String::from_str(prices[0].price.as_str());
    let mut idx: usize = 1;
    while idx < prices.len()
        invariant
            1 <= idx <= prices@.len(),
            out@ == spec_join_prices(prices@.take(idx as int)),
        decreases prices@.len() - idx,
    {
        proof {
            assert(prices@.take(idx + 1).drop_last() =~= prices@.take(idx as int));
            assert(prices@.take(idx + 1).last() == prices@[idx as int]);
        }
        out.append(" / ");
        out.append(prices[idx].price.as_str());
        idx += 1;
    }
    proof {
        assert(prices@.take(prices@.len() as int) =~= prices@);
    }
    out
}

/// The indented body printed under a station when a meal is assigned: the
/// meal's name, its word-wrapped description, and, when prices are
/// requested, the joined price tiers, each on its own line.
pub open spec fn spec_render_meal(m: Meal, show_prices: bool) -> Seq<char> {
    indent_of(m.name@, "    "@) + "\n"@ + indent_of(
        fill_of(m.description@, DESCRIPTION_WIDTH as int),
        "    "@,
    ) + "\n"@ + if show_prices {
        indent_of(spec_join_prices(m.meal_price_array@), "\t\t\t\t"@) + "\n"@
    } else {
        Seq::empty()
    }
}

/// One rendered line element: the station name on a line of its own, then
/// the meal body when a meal is assigned.
pub open spec fn spec_render_element(e: LineElement, show_prices: bool) -> Seq<char> {
    e.name@ + "\n"@ + match e.meal {
        None => Seq::<char>::empty(),
        Some(m) => spec_render_meal(m, show_prices),
    }
}

/// The whole rendered menu: the line elements in input order.
pub open spec fn spec_render(lines: Seq<LineElement>, show_prices: bool) -> Seq<char> {
    lines.fold_left(
        Seq::<char>::empty(),
        |acc: Seq<char>, e: LineElement| acc + spec_render_element(e, show_prices),
    )
}

/// Renders the body printed under a station for an assigned meal.
pub fn render_meal(m: &Meal, show_prices: bool) -> (r: String)
    ensures
        r@ == spec_render_meal(*m, show_prices),
{
    let mut out = indent_text(m.name.as_str(), "    ");
    out.append("\n");
    let wrapped = fill_text(m.description.as_str(), DESCRIPTION_WIDTH);
    let indented = indent_text(wrapped.as_str(), "    ");
    out.append(indented.as_str());
    out.append("\n");
    if show_prices {
        let joined = join_prices(&m.meal_price_array);
        let price_line = indent_text(joined.as_str(), "\t\t\t\t");
        out.append(price_line.as_str());
        out.append("\n");
    }
    proof {
        assert(out@ =~= spec_render_meal(*m, show_prices));
    }
    out
}

/// Renders one line element: its station name, then its meal body if any.
pub fn render_element(e: &LineElement, show_prices: bool) -> (r: String)
    ensures
        r@ == spec_render_element(*e, show_prices),
{
    let mut out = String::from_str(e.name.as_str());
    out.append("\n");
    match &e.meal {
        None => {},
        Some(m) => {
            let body = render_meal(m, show_prices);
            out.append(body.as_str());
        },
    }
    proof {
        assert(out@ =~= spec_render_element(*e, show_prices));
    }
    out
}

/// Renders the resolved line elements, in input order, as display text.
pub fn render(lines: &Vec<LineElement>, show_prices: bool) -> (r: String)
    ensures
        r@ == spec_render(lines@, show_prices),
{
    let mut out = String::new();
    let mut idx: usize = 0;
    while idx < lines.len()
        invariant
            idx <= lines@.len(),
            out@ == spec_render(lines@.take(idx as int), show_prices),
        decreases lines@.len() - idx,
    {
        proof {
            assert(lines@.take(idx + 1).drop_last() =~= lines@.take(idx as int));
            assert(lines@.take(idx + 1).last() == lines@[idx as int]);
        }
        let rendered = render_element(&lines[idx], show_prices);
        out.append(rendered.as_str());
        idx += 1;
    }
    proof {
        assert(lines@.take(lines@.len() as int) =~= lines@);
    }
    out
}

/// Two line elements that agree on everything the renderer reads except
/// their price tiers: same station name, same meal presence, and for an
/// assigned meal the same name and description.
pub open spec fn agrees_except_prices(e: LineElement, f: LineElement) -> bool {
    e.name@ == f.name@ && match (e.meal, f.meal) {
        (None, None) => true,
        (Some(a), Some(b)) => a.name@ == b.name@ && a.description@ == b.description@,
        _ => false,
    }
}

/// Rendering without prices never emits a price line: the output does not
/// depend on the price tiers at all. Two line elements that agree on
/// everything but their price tiers render identically without prices.
pub proof fn lemma_no_prices_ignores_tiers(e: LineElement, f: LineElement)
    requires
        agrees_except_prices(e, f),
    ensures
        spec_render_element(e, false) == spec_render_element(f, false),
{
}

/// The whole-menu form of the same law: two menus that agree on everything
/// but their price tiers render identically without prices.
pub proof fn lemma_render_no_prices_ignores_tiers(
    lines1: Seq<LineElement>,
    lines2: Seq<LineElement>,
)
    requires
        lines1.len() == lines2.len(),
        forall|i: int|
            0 <= i < lines1.len() ==> agrees_except_prices(#[trigger] lines1[i], lines2[i]),
    ensures
        spec_render(lines1, false) == spec_render(lines2, false),
    decreases lines1.len(),
{
    if lines1.len() == 0 {
    } else {
        assert forall|i: int|
            0 <= i < lines1.drop_last().len() implies agrees_except_prices(
            #[trigger] lines1.drop_last()[i],
            lines2.drop_last()[i],
        ) by {
            assert(lines1.drop_last()[i] == lines1[i]);
            assert(lines2.drop_last()[i] == lines2[i]);
        }
        lemma_render_no_prices_ignores_tiers(lines1.drop_last(), lines2.drop_last());
        lemma_no_prices_ignores_tiers(lines1.last(), lines2.last());
    }
}

/// Requesting prices adds exactly one line per assigned meal: the price
/// tiers joined with `" / "` in their given order, indented, after the text
/// rendered without prices. Nothing else changes.
pub proof fn lemma_prices_add_only_price_line(m: Meal)
    ensures
        spec_render_meal(m, true) == spec_render_meal(m, false) + indent_of(
            spec_join_prices(m.meal_price_array@),
            "\t\t\t\t"@,
        ) + "\n"@,
{
    assert(spec_render_meal(m, true) =~= spec_render_meal(m, false) + indent_of(
        spec_join_prices(m.meal_price_array@),
        "\t\t\t\t"@,
    ) + "\n"@);
}

} // verus!
