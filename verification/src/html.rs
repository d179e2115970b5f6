//! Renders a ranked player list as a standalone HTML results table.
//!
//! This is the pure half of exporting results: the engine produces the
//! document, and whatever surrounds the engine writes it out or turns it
//! into an image.

use vstd::prelude::*;

use crate::player::Player;
use crate::text::{int_text, push_i32};

verus! {

/// One player's table row: the name colored as the player wrote it, then
/// the score in decimal.
pub open spec fn player_row_html(p: Player) -> Seq<char> {
    "<tr class=\"border-b border-zinc-700\"><th scope=\"row\" class=\"px-6 py-4 font-medium whitespace-nowrap\" style=\"color: "@
        + p.color@ + ";\">"@ + p.name@ + "</th><td class=\"px-6 py-4 text-white\">"@ + int_text(
        p.score as int,
    ) + "</td></tr>"@
}

/// The table rows of the first `n` players, in order.
pub open spec fn table_rows_html(players: Seq<Player>, n: int) -> Seq<char>
    decreases n,
{
    if n <= 0 {
        Seq::empty()
    } else {
        table_rows_html(players, n - 1) + player_row_html(players[n - 1])
    }
}

/// The whole results document: a dark two-column table of name and score,
/// one row per player, in the order given.
pub open spec fn document_html(players: Seq<Player>) -> Seq<char> {
    "<!DOCTYPE html><html><head><meta charset=\"UTF-8\" /><title>title</title><script src=\"https://cdn.tailwindcss.com\"></script></head><body class=\"max-w-md\"><div class=\"relative\"><table class=\"w-full text-4xl text-left text-zinc-50\"><thead class=\"text-xl uppercase bg-zinc-700 text-zinc-50\"><tr><th scope=\"col\" class=\"px-6 py-3\">Name</th><th scope=\"col\" class=\"px-6 py-3\">Score</th></tr></thead><tbody class=\"bg-zinc-800 text-white\">"@
        + table_rows_html(players, players.len() as int) + "</tbody></table></div></body></html>"@
}

/// Renders the players, in the order given, as the standalone results
/// document.
pub fn render_html(players: &[Player]) -> (r: String)
    ensures
        r@ == document_html(players@),
{
    let mut html = String::new();
    html.append(
        "<!DOCTYPE html><html><head><meta charset=\"UTF-8\" /><title>title</title><script src=\"https://cdn.tailwindcss.com\"></script></head><body class=\"max-w-md\"><div class=\"relative\"><table class=\"w-full text-4xl text-left text-zinc-50\"><thead class=\"text-xl uppercase bg-zinc-700 text-zinc-50\"><tr><th scope=\"col\" class=\"px-6 py-3\">Name</th><th scope=\"col\" class=\"px-6 py-3\">Score</th></tr></thead><tbody class=\"bg-zinc-800 text-white\">",
    );
    let ghost head = html@;
    let n = players.len();
    let mut i: usize = 0;
    while i < n
        invariant
            n == players@.len(),
            i <= n,
            html@ == head + table_rows_html(players@, i as int),
        decreases n - i,
    {
        html.append(
            "<tr class=\"border-b border-zinc-700\"><th scope=\"row\" class=\"px-6 py-4 font-medium whitespace-nowrap\" style=\"color: ",
        );
        html.append(players[i].color.as_str());
        html.append(";\">");
        html.append(players[i].name.as_str());
        html.append("</th><td class=\"px-6 py-4 text-white\">");
        push_i32(&mut html, players[i].score);
        html.append("</td></tr>");
        proof {
            assert(html@ =~= head + table_rows_html(players@, i + 1));
        }
        i += 1;
    }
    html.append("</tbody></table></div></body></html>");
    proof {
        assert(html@ =~= document_html(players@));
    }
    html
}

} // verus!
