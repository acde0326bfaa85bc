//! What messages tell, and how they are put together.

use crate::config::{Config, ConfigView};
use crate::detector::{CandidateResult, CandidateView};
use crate::json;
use crate::json::JsonView;
use crate::number;
use crate::number::{Number, Operation};
use crate::ordering;
use crate::status;
use crate::status::HttpStatus;
use crate::telegram;
use crate::telegram::{
    candidate_message, candidate_summaries, check_response, display_pair, escape_markdown_v2, message_body,
    send_message_url, timed_message, trade_link,
};
use crate::text;
use crate::time_utils;
use vstd::prelude::*;

verus! {

/// The lines of a text.
pub open spec fn lines(chars: Seq<char>) -> Seq<Seq<char>>
    decreases chars.len(),
{
    if chars.len() == 0 {
        seq![seq![]]
    } else {
        let before = lines(chars.drop_last());
        if chars.last() == '\n' {
            before.push(seq![])
        } else {
            before.drop_last().push(before.last().push(chars.last()))
        }
    }
}

/// Whether a text is part of one line.
pub open spec fn is_unbroken(chars: Seq<char>) -> bool {
    forall|i: int| 0 <= i < chars.len() ==> #[trigger] chars[i] != '\n'
}

proof fn lemma_some_line(chars: Seq<char>)
    ensures
        lines(chars).len() > 0,
    decreases chars.len(),
{
    if chars.len() > 0 {
        lemma_some_line(chars.drop_last());
    }
}

/// Text without a break makes the last line longer.
proof fn lemma_longer_line(chars: Seq<char>, more: Seq<char>)
    requires
        is_unbroken(more),
    ensures
        lines(chars + more) == lines(chars).drop_last().push(lines(chars).last() + more),
    decreases more.len(),
{
    lemma_some_line(chars);
    if more.len() == 0 {
        assert(chars + more =~= chars);
        assert(lines(chars).last() + more =~= lines(chars).last());
        assert(lines(chars).drop_last().push(lines(chars).last()) =~= lines(chars));
    } else {
        let rest = more.drop_last();
        assert(is_unbroken(rest)) by {
            assert forall|i: int| 0 <= i < rest.len() implies #[trigger] rest[i] != '\n' by {
                assert(more[i] != '\n');
            }
        }
        lemma_longer_line(chars, rest);
        assert(more[more.len() - 1] != '\n');
        assert((chars + more).drop_last() =~= chars + rest);
        let before = lines(chars + rest);
        assert(before.drop_last() =~= lines(chars).drop_last());
        assert((lines(chars).last() + rest).push(more.last()) =~= lines(chars).last() + more);
    }
}

/// A break begins a new line.
proof fn lemma_new_line(chars: Seq<char>)
    ensures
        lines(chars.push('\n')) == lines(chars).push(seq![]),
{
    assert(chars.push('\n').drop_last() =~= chars);
}

/// A break and text without one behind it make one more line.
proof fn lemma_next_line(chars: Seq<char>, piece: Seq<char>, label: Seq<char>)
    requires
        piece == seq!['\n'] + label,
        is_unbroken(label),
    ensures
        lines(chars + piece) == lines(chars).push(label),
{
    lemma_new_line(chars);
    lemma_longer_line(chars.push('\n'), label);
    assert(chars + piece =~= chars.push('\n') + label);
    let before = lines(chars.push('\n'));
    assert(before.drop_last() =~= lines(chars));
    assert(before.last() + label =~= label);
}

/// Escaping keeps the lines apart.
proof fn lemma_escaped_lines(chars: Seq<char>)
    ensures
        lines(telegram::escaped(chars)) == lines(chars).map_values(
            |line: Seq<char>| telegram::escaped(line),
        ),
    decreases chars.len(),
{
    let escape = |line: Seq<char>| telegram::escaped(line);
    if chars.len() == 0 {
        assert(telegram::escaped(chars) =~= seq![]);
        assert(lines(telegram::escaped(chars)) =~= lines(chars).map_values(escape)) by {
            assert(telegram::escaped(Seq::<char>::empty()) =~= Seq::<char>::empty());
        }
    } else {
        let rest = chars.drop_last();
        let last = chars.last();
        lemma_some_line(rest);
        lemma_escaped_lines(rest);
        let before = telegram::escaped(rest);
        if last == '\n' {
            assert(telegram::escaped(chars) =~= before.push('\n'));
            lemma_new_line(before);
            assert(telegram::escaped(Seq::<char>::empty()) =~= Seq::<char>::empty());
            assert(lines(chars).map_values(escape) =~= lines(rest).map_values(escape).push(seq![]));
        } else {
            let more = telegram::escaped_char(last);
            assert(is_unbroken(more));
            lemma_longer_line(before, more);
            let line = lines(rest).last();
            assert(line.push(last).drop_last() =~= line);
            assert(telegram::escaped(line.push(last)) == telegram::escaped(line) + more);
            assert(lines(chars).map_values(escape) =~= lines(rest).map_values(
                escape,
            ).drop_last().push(telegram::escaped(line) + more));
        }
    }
}

/// Escaping one text after the other is escaping both together.
pub proof fn law_escaping_goes_part_by_part(a: Seq<char>, b: Seq<char>)
    ensures
        telegram::escaped(a + b) == telegram::escaped(a) + telegram::escaped(b),
    decreases b.len(),
{
    if b.len() == 0 {
        assert(a + b =~= a);
        assert(telegram::escaped(b) =~= seq![]);
        assert(telegram::escaped(a) + telegram::escaped(b) =~= telegram::escaped(a));
    } else {
        law_escaping_goes_part_by_part(a, b.drop_last());
        assert((a + b).drop_last() =~= a + b.drop_last());
        assert(telegram::escaped(a + b) =~= telegram::escaped(a) + telegram::escaped(b));
    }
}

/// A label without characters that have a meaning of their own stays as it is.
proof fn lemma_plain_label(label: Seq<char>, behind: Seq<char>)
    requires
        forall|i: int| 0 <= i < label.len() ==> !telegram::is_reserved(#[trigger] label[i]),
    ensures
        telegram::escaped(label + behind) == label + telegram::escaped(behind),
    decreases label.len(),
{
    law_escaping_goes_part_by_part(label, behind);
    if label.len() == 0 {
        assert(telegram::escaped(label) =~= label);
    } else {
        let rest = label.drop_last();
        assert forall|i: int| 0 <= i < rest.len() implies !telegram::is_reserved(
            #[trigger] rest[i],
        ) by {
            assert(!telegram::is_reserved(label[i]));
        }
        lemma_plain_label(rest, seq![]);
        assert(rest + Seq::<char>::empty() =~= rest);
        assert(telegram::escaped(Seq::<char>::empty()) =~= Seq::<char>::empty());
        assert(!telegram::is_reserved(label[label.len() - 1]));
        assert(telegram::escaped(label) =~= label);
    }
}

/// One character alone is escaped if and only if it is one of those that have a meaning of
/// their own.
pub proof fn law_just_the_reserved_are_escaped(c: char, text: &str, result: String)
    requires
        text@ == seq![c],
        call_ensures(escape_markdown_v2, (text,), result),
    ensures
        "_*[]()~`>#+-=|{}.!"@.contains(c) ==> result@ == seq!['\\', c],
        !"_*[]()~`>#+-=|{}.!"@.contains(c) ==> result@ == seq![c],
{
    reveal_strlit("_*[]()~`>#+-=|{}.!");
    let reserved = "_*[]()~`>#+-=|{}.!"@;
    assert(text@.drop_last() =~= Seq::<char>::empty());
    assert(telegram::escaped(Seq::<char>::empty()) =~= Seq::<char>::empty());
    assert(result@ =~= telegram::escaped_char(c));
    assert(reserved[0] == '_' && reserved[1] == '*' && reserved[2] == '[' && reserved[3] == ']'
        && reserved[4] == '(' && reserved[5] == ')' && reserved[6] == '~' && reserved[7] == '`'
        && reserved[8] == '>' && reserved[9] == '#' && reserved[10] == '+' && reserved[11] == '-'
        && reserved[12] == '=' && reserved[13] == '|' && reserved[14] == '{' && reserved[15] == '}'
        && reserved[16] == '.' && reserved[17] == '!');
}

/// The name of a market that ends with USDT is shown as a pair, and every other one as it is.
pub proof fn law_pairs_are_shown(symbol: &str, shown: String, base: Seq<char>)
    requires
        call_ensures(display_pair, (symbol,), shown),
    ensures
        symbol@ == base + "USDT"@ ==> shown@ == base + "/USDT"@,
        (forall|b: Seq<char>| symbol@ != #[trigger] (b + "USDT"@)) ==> shown@ == symbol@,
{
    lemma_suffix(symbol@, base);
}

proof fn lemma_suffix(symbol: Seq<char>, base: Seq<char>)
    ensures
        symbol == base + "USDT"@ ==> text::without_suffix(symbol, "USDT"@) == Some(base),
        (forall|b: Seq<char>| symbol != #[trigger] (b + "USDT"@)) ==> text::without_suffix(
            symbol,
            "USDT"@,
        ) is None,
{
    let suffix = "USDT"@;
    if symbol == base + suffix {
        assert(symbol.skip(symbol.len() - suffix.len()) =~= suffix);
        assert(symbol.take(symbol.len() - suffix.len()) =~= base);
    }
    if text::without_suffix(symbol, suffix) is Some {
        let b = text::without_suffix(symbol, suffix)->0;
        let tail = symbol.skip(symbol.len() - suffix.len());
        assert(symbol =~= b + tail);
        assert(symbol == b + suffix);
    }
}

/// The link of a market shows its pair and leads to the page on which its asset is traded
/// against USDT.
pub proof fn law_links_lead_to_the_market(
    symbol: &str,
    link: String,
    shown: String,
    base: Seq<char>,
)
    requires
        call_ensures(trade_link, (symbol,), link),
        call_ensures(display_pair, (symbol,), shown),
        symbol@ == base + "USDT"@ || base == symbol@ && forall|b: Seq<char>|
            symbol@ != #[trigger] (b + "USDT"@),
    ensures
        link@ == "["@ + telegram::escaped(shown@) + "](https://www.binance.com/de/trade/"@ + base
            + "_USDT)"@,
{
    lemma_suffix(symbol@, base);
}

/// What an alert tells, line by line, before it is escaped; the link comes behind it.
pub open spec fn told_lines(
    arithmetic: spec_fn(Operation) -> Number,
    show: spec_fn(Number, usize) -> Seq<char>,
    config: ConfigView,
    candidate: CandidateView,
    latest_time: Seq<char>,
    largest_time: Seq<char>,
) -> Seq<Seq<char>> {
    let hours = arithmetic(
        Operation::Quotient(
            arithmetic(Operation::Millis(candidate.quiet_period_ms)),
            number::pattern(0x414b_7740_0000_0000),
        ),
    );
    seq![
        "Seitwärts-Kandidat"@,
        seq![],
        "Aktueller Close: "@ + show(candidate.latest_close, 8),
        "Median: "@ + show(candidate.median_price, 8),
        "Band: "@ + show(candidate.band_lower, 8) + " bis "@ + show(candidate.band_upper, 8),
        "Closes im Band: "@ + show(candidate.sideways_close_ratio, 2) + "%"@,
        seq![],
        "Jüngster Spike: +"@ + show(candidate.latest_spike_pct, 2) + "% am "@ + latest_time,
        "Jüngstes Spike-High: "@ + show(candidate.latest_spike_high, 8),
        "Größter Spike: +"@ + show(candidate.largest_spike_pct, 2) + "% am "@ + largest_time,
        "Ruhe seit Spike: "@ + show(hours, 1) + "h"@,
        seq![],
        "Fenster: "@ + config.rolling_window,
        "Kerzen: "@ + config.candle_interval,
        "24h Quote-Volumen: "@ + show(candidate.quote_volume_24h, 0),
    ]
}

#[verifier::rlimit(60)]
proof fn lemma_told_lines(
    arithmetic: spec_fn(Operation) -> Number,
    show: spec_fn(Number, usize) -> Seq<char>,
    config: ConfigView,
    candidate: CandidateView,
    latest_time: Seq<char>,
    largest_time: Seq<char>,
)
    requires
        forall|n: Number, decimals: usize| is_unbroken(#[trigger] show(n, decimals)),
        is_unbroken(latest_time),
        is_unbroken(largest_time),
        is_unbroken(config.rolling_window),
        is_unbroken(config.candle_interval),
    ensures
        lines(
            telegram::candidate_text(
                arithmetic,
                show,
                config,
                candidate,
                latest_time,
                largest_time,
            ),
        ) == told_lines(arithmetic, show, config, candidate, latest_time, largest_time),
{
    let hours = arithmetic(
        Operation::Quotient(
            arithmetic(Operation::Millis(candidate.quiet_period_ms)),
            number::pattern(0x414b_7740_0000_0000),
        ),
    );
    reveal_strlit("Seitwärts-Kandidat");
    reveal_strlit("Seitwärts-Kandidat\n\nAktueller Close: ");
    reveal_strlit("Aktueller Close: ");
    reveal_strlit("\nMedian: ");
    reveal_strlit("Median: ");
    reveal_strlit("\nBand: ");
    reveal_strlit("Band: ");
    reveal_strlit(" bis ");
    reveal_strlit("\nCloses im Band: ");
    reveal_strlit("Closes im Band: ");
    reveal_strlit("%\n\nJüngster Spike: +");
    reveal_strlit("%");
    reveal_strlit("Jüngster Spike: +");
    reveal_strlit("% am ");
    reveal_strlit("\nJüngstes Spike-High: ");
    reveal_strlit("Jüngstes Spike-High: ");
    reveal_strlit("\nGrößter Spike: +");
    reveal_strlit("Größter Spike: +");
    reveal_strlit("\nRuhe seit Spike: ");
    reveal_strlit("Ruhe seit Spike: ");
    reveal_strlit("h\n\nFenster: ");
    reveal_strlit("h");
    reveal_strlit("Fenster: ");
    reveal_strlit("\nKerzen: ");
    reveal_strlit("Kerzen: ");
    reveal_strlit("\n24h Quote-Volumen: ");
    reveal_strlit("24h Quote-Volumen: ");
    let told = told_lines(arithmetic, show, config, candidate, latest_time, largest_time);
    let start = "Seitwärts-Kandidat\n\nAktueller Close: "@;
    let nothing = Seq::<char>::empty();
    assert(is_unbroken("Seitwärts-Kandidat"@));
    lemma_longer_line(nothing, "Seitwärts-Kandidat"@);
    assert(nothing + "Seitwärts-Kandidat"@ =~= "Seitwärts-Kandidat"@);
    assert(lines(nothing) =~= seq![seq![]]);
    assert(lines("Seitwärts-Kandidat"@) =~= told.take(1));
    lemma_new_line("Seitwärts-Kandidat"@);
    let opened = "Seitwärts-Kandidat"@.push('\n');
    assert(lines(opened) =~= told.take(2));
    assert(start =~= opened + (seq!['\n'] + "Aktueller Close: "@));
    lemma_next_line(opened, seq!['\n'] + "Aktueller Close: "@, "Aktueller Close: "@);
    let p0 = start;
    assert(lines(p0) =~= told.take(2).push("Aktueller Close: "@));
    let p1 = p0 + show(candidate.latest_close, 8);
    lemma_longer_line(p0, show(candidate.latest_close, 8));
    assert(lines(p1) =~= told.take(2).push("Aktueller Close: "@ + show(candidate.latest_close, 8)));
    let p2 = p1 + "\nMedian: "@;
    assert(told[2] =~= "Aktueller Close: "@ + show(candidate.latest_close, 8));
    assert("\nMedian: "@ =~= seq!['\n'] + "Median: "@);
    lemma_next_line(p1, "\nMedian: "@, "Median: "@);
    assert(lines(p2) =~= told.take(3).push("Median: "@));
    let p3 = p2 + show(candidate.median_price, 8);
    lemma_longer_line(p2, show(candidate.median_price, 8));
    assert(lines(p3) =~= told.take(3).push("Median: "@ + show(candidate.median_price, 8)));
    let p4 = p3 + "\nBand: "@;
    assert(told[3] =~= "Median: "@ + show(candidate.median_price, 8));
    assert("\nBand: "@ =~= seq!['\n'] + "Band: "@);
    lemma_next_line(p3, "\nBand: "@, "Band: "@);
    assert(lines(p4) =~= told.take(4).push("Band: "@));
    let p5 = p4 + show(candidate.band_lower, 8);
    lemma_longer_line(p4, show(candidate.band_lower, 8));
    assert(lines(p5) =~= told.take(4).push("Band: "@ + show(candidate.band_lower, 8)));
    let p6 = p5 + " bis "@;
    lemma_longer_line(p5, " bis "@);
    assert(lines(p6) =~= told.take(4).push("Band: "@ + show(candidate.band_lower, 8) + " bis "@));
    let p7 = p6 + show(candidate.band_upper, 8);
    lemma_longer_line(p6, show(candidate.band_upper, 8));
    assert(lines(p7) =~= told.take(4).push("Band: "@ + show(candidate.band_lower, 8) + " bis "@ + show(candidate.band_upper, 8)));
    let p8 = p7 + "\nCloses im Band: "@;
    assert(told[4] =~= "Band: "@ + show(candidate.band_lower, 8) + " bis "@ + show(candidate.band_upper, 8));
    assert("\nCloses im Band: "@ =~= seq!['\n'] + "Closes im Band: "@);
    lemma_next_line(p7, "\nCloses im Band: "@, "Closes im Band: "@);
    assert(lines(p8) =~= told.take(5).push("Closes im Band: "@));
    let p9 = p8 + show(candidate.sideways_close_ratio, 2);
    lemma_longer_line(p8, show(candidate.sideways_close_ratio, 2));
    assert(lines(p9) =~= told.take(5).push("Closes im Band: "@ + show(candidate.sideways_close_ratio, 2)));
    let p10 = p9 + "%\n\nJüngster Spike: +"@;
    let full10 = p9 + "%"@;
    lemma_longer_line(p9, "%"@);
    assert(told[5] =~= "Closes im Band: "@ + show(candidate.sideways_close_ratio, 2) + "%"@);
    assert(lines(full10) =~= told.take(6));
    lemma_new_line(full10);
    let broken10 = full10.push('\n');
    assert(lines(broken10) =~= told.take(7));
    lemma_next_line(broken10, seq!['\n'] + "Jüngster Spike: +"@, "Jüngster Spike: +"@);
    assert(p10 =~= broken10 + (seq!['\n'] + "Jüngster Spike: +"@));
    assert(lines(p10) =~= told.take(7).push("Jüngster Spike: +"@));
    let p11 = p10 + show(candidate.latest_spike_pct, 2);
    lemma_longer_line(p10, show(candidate.latest_spike_pct, 2));
    assert(lines(p11) =~= told.take(7).push("Jüngster Spike: +"@ + show(candidate.latest_spike_pct, 2)));
    let p12 = p11 + "% am "@;
    lemma_longer_line(p11, "% am "@);
    assert(lines(p12) =~= told.take(7).push("Jüngster Spike: +"@ + show(candidate.latest_spike_pct, 2) + "% am "@));
    let p13 = p12 + latest_time;
    lemma_longer_line(p12, latest_time);
    assert(lines(p13) =~= told.take(7).push("Jüngster Spike: +"@ + show(candidate.latest_spike_pct, 2) + "% am "@ + latest_time));
    let p14 = p13 + "\nJüngstes Spike-High: "@;
    assert(told[7] =~= "Jüngster Spike: +"@ + show(candidate.latest_spike_pct, 2) + "% am "@ + latest_time);
    assert("\nJüngstes Spike-High: "@ =~= seq!['\n'] + "Jüngstes Spike-High: "@);
    lemma_next_line(p13, "\nJüngstes Spike-High: "@, "Jüngstes Spike-High: "@);
    assert(lines(p14) =~= told.take(8).push("Jüngstes Spike-High: "@));
    let p15 = p14 + show(candidate.latest_spike_high, 8);
    lemma_longer_line(p14, show(candidate.latest_spike_high, 8));
    assert(lines(p15) =~= told.take(8).push("Jüngstes Spike-High: "@ + show(candidate.latest_spike_high, 8)));
    let p16 = p15 + "\nGrößter Spike: +"@;
    assert(told[8] =~= "Jüngstes Spike-High: "@ + show(candidate.latest_spike_high, 8));
    assert("\nGrößter Spike: +"@ =~= seq!['\n'] + "Größter Spike: +"@);
    lemma_next_line(p15, "\nGrößter Spike: +"@, "Größter Spike: +"@);
    assert(lines(p16) =~= told.take(9).push("Größter Spike: +"@));
    let p17 = p16 + show(candidate.largest_spike_pct, 2);
    lemma_longer_line(p16, show(candidate.largest_spike_pct, 2));
    assert(lines(p17) =~= told.take(9).push("Größter Spike: +"@ + show(candidate.largest_spike_pct, 2)));
    let p18 = p17 + "% am "@;
    lemma_longer_line(p17, "% am "@);
    assert(lines(p18) =~= told.take(9).push("Größter Spike: +"@ + show(candidate.largest_spike_pct, 2) + "% am "@));
    let p19 = p18 + largest_time;
    lemma_longer_line(p18, largest_time);
    assert(lines(p19) =~= told.take(9).push("Größter Spike: +"@ + show(candidate.largest_spike_pct, 2) + "% am "@ + largest_time));
    let p20 = p19 + "\nRuhe seit Spike: "@;
    assert(told[9] =~= "Größter Spike: +"@ + show(candidate.largest_spike_pct, 2) + "% am "@ + largest_time);
    assert("\nRuhe seit Spike: "@ =~= seq!['\n'] + "Ruhe seit Spike: "@);
    lemma_next_line(p19, "\nRuhe seit Spike: "@, "Ruhe seit Spike: "@);
    assert(lines(p20) =~= told.take(10).push("Ruhe seit Spike: "@));
    let p21 = p20 + show(hours, 1);
    lemma_longer_line(p20, show(hours, 1));
    assert(lines(p21) =~= told.take(10).push("Ruhe seit Spike: "@ + show(hours, 1)));
    let p22 = p21 + "h\n\nFenster: "@;
    let full22 = p21 + "h"@;
    lemma_longer_line(p21, "h"@);
    assert(told[10] =~= "Ruhe seit Spike: "@ + show(hours, 1) + "h"@);
    assert(lines(full22) =~= told.take(11));
    lemma_new_line(full22);
    let broken22 = full22.push('\n');
    assert(lines(broken22) =~= told.take(12));
    lemma_next_line(broken22, seq!['\n'] + "Fenster: "@, "Fenster: "@);
    assert(p22 =~= broken22 + (seq!['\n'] + "Fenster: "@));
    assert(lines(p22) =~= told.take(12).push("Fenster: "@));
    let p23 = p22 + config.rolling_window;
    lemma_longer_line(p22, config.rolling_window);
    assert(lines(p23) =~= told.take(12).push("Fenster: "@ + config.rolling_window));
    let p24 = p23 + "\nKerzen: "@;
    assert(told[12] =~= "Fenster: "@ + config.rolling_window);
    assert("\nKerzen: "@ =~= seq!['\n'] + "Kerzen: "@);
    lemma_next_line(p23, "\nKerzen: "@, "Kerzen: "@);
    assert(lines(p24) =~= told.take(13).push("Kerzen: "@));
    let p25 = p24 + config.candle_interval;
    lemma_longer_line(p24, config.candle_interval);
    assert(lines(p25) =~= told.take(13).push("Kerzen: "@ + config.candle_interval));
    let p26 = p25 + "\n24h Quote-Volumen: "@;
    assert(told[13] =~= "Kerzen: "@ + config.candle_interval);
    assert("\n24h Quote-Volumen: "@ =~= seq!['\n'] + "24h Quote-Volumen: "@);
    lemma_next_line(p25, "\n24h Quote-Volumen: "@, "24h Quote-Volumen: "@);
    assert(lines(p26) =~= told.take(14).push("24h Quote-Volumen: "@));
    let p27 = p26 + show(candidate.quote_volume_24h, 0);
    lemma_longer_line(p26, show(candidate.quote_volume_24h, 0));
    assert(lines(p27) =~= told.take(14).push("24h Quote-Volumen: "@ + show(candidate.quote_volume_24h, 0)));
    assert(told[14] =~= "24h Quote-Volumen: "@ + show(candidate.quote_volume_24h, 0));
    assert(lines(p27) =~= told);
    assert(p27 == telegram::candidate_text(
        arithmetic,
        show,
        config,
        candidate,
        latest_time,
        largest_time,
    ));
}

/// An alert tells each figure of the candidate in a line of its own under its own label,
/// escaped, and in the last line the link of the market.
pub proof fn law_alerts_tell_each_figure<
    C: Fn(Operation) -> Number,
    S: Fn(Number, usize) -> String,
>(
    config: Config,
    candidate: CandidateResult,
    latest_time: &str,
    largest_time: &str,
    calc: C,
    show: S,
    message: String,
    symbol: &str,
    link: String,
)
    requires
        number::calculates(calc),
        number::shows(show),
        call_ensures(
            timed_message::<C, S>,
            (&config, &candidate, latest_time, largest_time, &calc, &show),
            message,
        ),
        symbol@ == candidate.symbol@,
        call_ensures(trade_link, (symbol,), link),
        forall|n: Number, decimals: usize|
            is_unbroken(#[trigger] number::showings(show)(n, decimals)),
        is_unbroken(latest_time@),
        is_unbroken(largest_time@),
        is_unbroken(config.rolling_window@),
        is_unbroken(config.candle_interval@),
        is_unbroken(link@),
    ensures
        ({
            let shown = number::showings(show);
            let arithmetic = number::answers(calc);
            let hours = arithmetic(
                Operation::Quotient(
                    arithmetic(Operation::Millis(candidate.quiet_period_ms)),
                    number::pattern(0x414b_7740_0000_0000),
                ),
            );
            let told = lines(message@);
            &&& told.len() == 17
            &&& told[0] == telegram::escaped("Seitwärts-Kandidat"@)
            &&& told[2] == telegram::escaped("Aktueller Close: "@ + shown(candidate.latest_close, 8))
            &&& told[3] == telegram::escaped("Median: "@ + shown(candidate.median_price, 8))
            &&& told[4] == telegram::escaped(
                "Band: "@ + shown(candidate.band_lower, 8) + " bis "@ + shown(
                    candidate.band_upper,
                    8,
                ),
            )
            &&& told[5] == telegram::escaped(
                "Closes im Band: "@ + shown(candidate.sideways_close_ratio, 2) + "%"@,
            )
            &&& told[7] == telegram::escaped(
                "Jüngster Spike: +"@ + shown(candidate.latest_spike_pct, 2) + "% am "@
                    + latest_time@,
            )
            &&& told[8] == telegram::escaped(
                "Jüngstes Spike-High: "@ + shown(candidate.latest_spike_high, 8),
            )
            &&& told[9] == telegram::escaped(
                "Größter Spike: +"@ + shown(candidate.largest_spike_pct, 2) + "% am "@
                    + largest_time@,
            )
            &&& told[10] == telegram::escaped("Ruhe seit Spike: "@ + shown(hours, 1) + "h"@)
            &&& told[12] == telegram::escaped("Fenster: "@ + config.rolling_window@)
            &&& told[13] == telegram::escaped("Kerzen: "@ + config.candle_interval@)
            &&& told[14] == telegram::escaped(
                "24h Quote-Volumen: "@ + shown(candidate.quote_volume_24h, 0),
            )
            &&& told[1] == Seq::<char>::empty() && told[6] == Seq::<char>::empty() && told[11]
                == Seq::<char>::empty() && told[15] == Seq::<char>::empty()
            &&& told[16] == link@
            &&& told[2] == "Aktueller Close: "@ + telegram::escaped(
                shown(candidate.latest_close, 8),
            )
            &&& told[3] == "Median: "@ + telegram::escaped(shown(candidate.median_price, 8))
            &&& told[12] == "Fenster: "@ + telegram::escaped(config.rolling_window@)
            &&& told[13] == "Kerzen: "@ + telegram::escaped(config.candle_interval@)
        }),
{
    reveal_strlit("Aktueller Close: ");
    reveal_strlit("Median: ");
    reveal_strlit("Fenster: ");
    reveal_strlit("Kerzen: ");
    lemma_plain_label("Aktueller Close: "@, number::showings(show)(candidate.latest_close, 8));
    lemma_plain_label("Median: "@, number::showings(show)(candidate.median_price, 8));
    lemma_plain_label("Fenster: "@, config.rolling_window@);
    lemma_plain_label("Kerzen: "@, config.candle_interval@);
    let arithmetic = number::answers(calc);
    let shown = number::showings(show);
    lemma_told_lines(arithmetic, shown, config@, candidate@, latest_time@, largest_time@);
    let plain = telegram::candidate_text(
        arithmetic,
        shown,
        config@,
        candidate@,
        latest_time@,
        largest_time@,
    );
    lemma_escaped_lines(plain);
    let sent = telegram::escaped(plain);
    lemma_new_line(sent);
    lemma_new_line(sent.push('\n'));
    lemma_longer_line(sent.push('\n').push('\n'), link@);
    reveal_strlit("\n\n");
    assert(sent + "\n\n"@ =~= sent.push('\n').push('\n'));
    assert(telegram::escaped(Seq::<char>::empty()) =~= Seq::<char>::empty());
    let behind = lines(sent).push(Seq::<char>::empty());
    assert(lines(sent.push('\n').push('\n')).drop_last() =~= behind);
    assert(Seq::<char>::empty() + link@ =~= link@);
    assert(message@ == sent + "\n\n"@ + link@);
    assert(lines(message@) == behind.push(link@));
}

/// Alerts that are the same tell the same figures: two candidates with different latest
/// closes, as they are shown, have different alerts, and so it is with every figure that has
/// a line of its own.
pub proof fn law_different_figures_make_different_alerts(
    arithmetic: spec_fn(Operation) -> Number,
    show: spec_fn(Number, usize) -> Seq<char>,
    config: ConfigView,
    a: CandidateView,
    b: CandidateView,
    latest_time: Seq<char>,
    largest_time: Seq<char>,
)
    requires
        forall|n: Number, decimals: usize| is_unbroken(#[trigger] show(n, decimals)),
        is_unbroken(latest_time),
        is_unbroken(largest_time),
        is_unbroken(config.rolling_window),
        is_unbroken(config.candle_interval),
        a.symbol == b.symbol,
        telegram::candidate_alert(arithmetic, show, config, a, latest_time, largest_time)
            == telegram::candidate_alert(arithmetic, show, config, b, latest_time, largest_time),
    ensures
        show(a.latest_close, 8) == show(b.latest_close, 8),
        show(a.median_price, 8) == show(b.median_price, 8),
        show(a.sideways_close_ratio, 2) == show(b.sideways_close_ratio, 2),
        show(a.latest_spike_pct, 2) == show(b.latest_spike_pct, 2),
        show(a.latest_spike_high, 8) == show(b.latest_spike_high, 8),
        show(a.largest_spike_pct, 2) == show(b.largest_spike_pct, 2),
        show(a.quote_volume_24h, 0) == show(b.quote_volume_24h, 0),
{
    let x = telegram::candidate_text(arithmetic, show, config, a, latest_time, largest_time);
    let y = telegram::candidate_text(arithmetic, show, config, b, latest_time, largest_time);
    let end = "\n\n"@ + telegram::link_of(a.symbol);
    let p = telegram::escaped(x);
    let q = telegram::escaped(y);
    assert(p + "\n\n"@ + telegram::link_of(a.symbol) =~= p + end);
    assert(q + "\n\n"@ + telegram::link_of(a.symbol) =~= q + end);
    assert((p + end).len() == (q + end).len());
    assert((p + end).take(p.len() as int) =~= p);
    assert((q + end).take(q.len() as int) =~= q);
    telegram::law_escaping_is_reversible(x, y);
    lemma_told_lines(arithmetic, show, config, a, latest_time, largest_time);
    lemma_told_lines(arithmetic, show, config, b, latest_time, largest_time);
    let left = told_lines(arithmetic, show, config, a, latest_time, largest_time);
    let right = told_lines(arithmetic, show, config, b, latest_time, largest_time);
    assert(left == right);
    lemma_same_behind("Aktueller Close: "@, show(a.latest_close, 8), show(b.latest_close, 8), seq![]);
    assert(left[2] == right[2]);
    assert(left[3] == right[3]);
    assert(left[5] == right[5]);
    assert(left[7] == right[7]);
    assert(left[8] == right[8]);
    assert(left[9] == right[9]);
    assert(left[14] == right[14]);
    lemma_same_behind("Median: "@, show(a.median_price, 8), show(b.median_price, 8), seq![]);
    lemma_same_behind(
        "Closes im Band: "@,
        show(a.sideways_close_ratio, 2),
        show(b.sideways_close_ratio, 2),
        "%"@,
    );
    assert("Jüngster Spike: +"@ + show(a.latest_spike_pct, 2) + "% am "@ + latest_time
        =~= "Jüngster Spike: +"@ + show(a.latest_spike_pct, 2) + ("% am "@ + latest_time));
    assert("Jüngster Spike: +"@ + show(b.latest_spike_pct, 2) + "% am "@ + latest_time
        =~= "Jüngster Spike: +"@ + show(b.latest_spike_pct, 2) + ("% am "@ + latest_time));
    lemma_same_behind(
        "Jüngster Spike: +"@,
        show(a.latest_spike_pct, 2),
        show(b.latest_spike_pct, 2),
        "% am "@ + latest_time,
    );
    lemma_same_behind(
        "Jüngstes Spike-High: "@,
        show(a.latest_spike_high, 8),
        show(b.latest_spike_high, 8),
        seq![],
    );
    assert("Größter Spike: +"@ + show(a.largest_spike_pct, 2) + "% am "@ + largest_time
        =~= "Größter Spike: +"@ + show(a.largest_spike_pct, 2) + ("% am "@ + largest_time));
    assert("Größter Spike: +"@ + show(b.largest_spike_pct, 2) + "% am "@ + largest_time
        =~= "Größter Spike: +"@ + show(b.largest_spike_pct, 2) + ("% am "@ + largest_time));
    lemma_same_behind(
        "Größter Spike: +"@,
        show(a.largest_spike_pct, 2),
        show(b.largest_spike_pct, 2),
        "% am "@ + largest_time,
    );
    lemma_same_behind(
        "24h Quote-Volumen: "@,
        show(a.quote_volume_24h, 0),
        show(b.quote_volume_24h, 0),
        seq![],
    );
}

/// Texts that are the same between the same beginning and the same end are the same.
proof fn lemma_same_behind(label: Seq<char>, x: Seq<char>, y: Seq<char>, end: Seq<char>)
    ensures
        label + x + end == label + y + end ==> x == y,
        label + x == label + y ==> x == y,
{
    let n = label.len() as int;
    if label + x + end == label + y + end {
        assert((label + x + end).len() == (label + y + end).len());
        assert((label + x + end).subrange(n, n + x.len()) =~= x);
        assert((label + y + end).subrange(n, n + y.len()) =~= y);
    }
    if label + x == label + y {
        assert((label + x).skip(n) =~= x);
        assert((label + y).skip(n) =~= y);
    }
}

/// A message is posted under the address of the bot, with chat and text as they are, as
/// MarkdownV2 and without a preview.
pub proof fn law_messages_are_posted_as_they_are(
    token: &str,
    url: String,
    chat_id: &str,
    message: &str,
    body: String,
)
    requires
        call_ensures(send_message_url, (token,), url),
        call_ensures(message_body, (chat_id, message), body),
    ensures
        url@ == "https://api.telegram.org/bot"@ + token@ + "/sendMessage"@,
        body@ == json::json_object(
            seq![
                ("chat_id"@, JsonView::Text(chat_id@)),
                ("disable_web_page_preview"@, JsonView::Flag(true)),
                ("parse_mode"@, JsonView::Text("MarkdownV2"@)),
                ("text"@, JsonView::Text(message@)),
            ],
        ),
{
}

/// A message has arrived if and only if the status is from 200 to 299; otherwise status and
/// body are told.
pub proof fn law_refused_messages_are_told(
    status: HttpStatus,
    body: &str,
    result: Result<(), String>,
)
    requires
        call_ensures(check_response, (status, body), result),
    ensures
        result is Ok <==> 200 <= status@ <= 299,
        result matches Err(error) ==> error@ == "telegram sendMessage failed: "@
            + status::status_words(status@) + " "@ + body@,
{
}

/// Whether messages hold groups of lines behind the same heading, each as full as 3800 bytes
/// allow: a line stands in the message under way unless it would make it longer than that.
pub open spec fn are_filled(
    heading: Seq<char>,
    groups: Seq<Seq<Seq<char>>>,
    messages: Seq<Seq<char>>,
) -> bool {
    &&& messages.len() == groups.len()
    &&& forall|i: int|
        0 <= i < groups.len() ==> #[trigger] messages[i] == heading + groups[i].flatten()
    &&& forall|i: int|
        0 < i < groups.len() ==> (#[trigger] groups[i]).len() > 0 && text::byte_length(
            messages[i - 1],
        ) + text::byte_length(groups[i][0]) > 3800
    &&& forall|i: int, k: int|
        0 <= i < groups.len() && (i == 0 || k > 0) && 0 <= k < groups[i].len()
            ==> text::byte_length(heading + (#[trigger] groups[i].take(k)).flatten())
            + text::byte_length(groups[i][k]) <= 3800
}

/// Packing on top of a message that already holds some lines.
proof fn lemma_filled(
    heading: Seq<char>,
    lines: Seq<Seq<char>>,
    held: Seq<Seq<char>>,
    first: bool,
) -> (groups: Seq<Seq<Seq<char>>>)
    requires
        held.len() + lines.len() > 0,
        first || held.len() > 0,
        forall|i: int| 0 <= i < lines.len() ==> (#[trigger] lines[i]).len() > 0,
        forall|i: int| 0 <= i < held.len() ==> (#[trigger] held[i]).len() > 0,
        forall|k: int|
            (first || k > 0) && 0 <= k < held.len() ==> text::byte_length(
                heading + (#[trigger] held.take(k)).flatten(),
            ) + text::byte_length(held[k]) <= 3800,
    ensures
        groups.len() > 0,
        groups.flatten() == held + lines,
        first || groups[0].len() > 0,
        !first ==> groups[0][0] == held[0],
        groups.len() == telegram::packed(heading, lines, heading + held.flatten()).len(),
        forall|i: int|
            0 <= i < groups.len() ==> #[trigger] telegram::packed(
                heading,
                lines,
                heading + held.flatten(),
            )[i] == heading + groups[i].flatten(),
        forall|i: int|
            0 < i < groups.len() ==> (#[trigger] groups[i]).len() > 0 && text::byte_length(
                telegram::packed(heading, lines, heading + held.flatten())[i - 1],
            ) + text::byte_length(groups[i][0]) > 3800,
        forall|i: int, k: int|
            0 <= i < groups.len() && (i == 0 && first || k > 0) && 0 <= k < groups[i].len()
                ==> text::byte_length(heading + (#[trigger] groups[i].take(k)).flatten())
                + text::byte_length(groups[i][k]) <= 3800,
    decreases lines.len(),
{
    let message = heading + held.flatten();
    let messages = telegram::packed(heading, lines, message);
    if lines.len() == 0 {
        let groups = seq![held];
        assert(held.flatten().len() > 0) by {
            assert(held[0].len() > 0);
            assert(held.flatten() == held[0] + held.drop_first().flatten());
        }
        assert(message.len() > heading.len());
        assert(messages == seq![message]);
        groups.lemma_flatten_one_element();
        assert(held + lines =~= held);
        groups
    } else {
        let line = lines[0];
        let rest = lines.drop_first();
        assert forall|i: int| 0 <= i < rest.len() implies (#[trigger] rest[i]).len() > 0 by {
            assert(rest[i] == lines[i + 1]);
        }
        if text::byte_length(message) + text::byte_length(line) > 3800 {
            let next = seq![line];
            next.lemma_flatten_one_element();
            assert(heading + next.flatten() == heading + line);
            let later = lemma_filled(heading, rest, next, false);
            let groups = seq![held] + later;
            let after = telegram::packed(heading, rest, heading + line);
            assert(messages == seq![message] + after);
            assert(groups.drop_first() =~= later);
            assert(groups.flatten() == held + later.flatten());
            assert(held + (next + rest) =~= held + lines);
            assert forall|i: int| 0 <= i < groups.len() implies #[trigger] messages[i] == heading
                + groups[i].flatten() by {
                if i > 0 {
                    assert(messages[i] == after[i - 1]);
                    assert(groups[i] == later[i - 1]);
                }
            }
            assert forall|i: int| 0 < i < groups.len() implies (#[trigger] groups[i]).len() > 0
                && text::byte_length(messages[i - 1]) + text::byte_length(groups[i][0]) > 3800 by {
                assert(groups[i] == later[i - 1]);
                if i > 1 {
                    assert(messages[i - 1] == after[i - 2]);
                }
            }
            assert forall|i: int, k: int|
                0 <= i < groups.len() && (i == 0 && first || k > 0) && 0 <= k
                    < groups[i].len() implies text::byte_length(
                heading + (#[trigger] groups[i].take(k)).flatten(),
            ) + text::byte_length(groups[i][k]) <= 3800 by {
                if i > 0 {
                    assert(groups[i] == later[i - 1]);
                    assert(later[i - 1].take(k) == groups[i].take(k));
                }
            }
            groups
        } else {
            let more = held.push(line);
            lemma_flatten_push(held, line);
            assert(heading + more.flatten() =~= message + line);
            assert forall|k: int|
                (first || k > 0) && 0 <= k < more.len() implies text::byte_length(
                heading + (#[trigger] more.take(k)).flatten(),
            ) + text::byte_length(more[k]) <= 3800 by {
                if k < held.len() {
                    assert(more.take(k) =~= held.take(k));
                    assert(more[k] == held[k]);
                } else {
                    assert(more.take(k) =~= held);
                }
            }
            let groups = lemma_filled(heading, rest, more, first);
            assert(more + rest =~= held + lines);
            groups
        }
    }
}

proof fn lemma_flatten_push(lines: Seq<Seq<char>>, line: Seq<char>)
    ensures
        lines.push(line).flatten() == lines.flatten() + line,
{
    let one = seq![line];
    one.lemma_flatten_one_element();
    assert(lines.push(line) =~= lines + one);
    vstd::seq_lib::lemma_flatten_concat(lines, one);
}

/// The messages that sum up candidates hold, behind a heading with their number, window and
/// interval, one line for each candidate, in order. A line holds the link, the share of closes
/// within the band, the latest and the largest spike and the volume. Each message is as full
/// as 3800 bytes allow, and no candidates need no message.
pub proof fn law_summaries_hold_one_line_per_candidate<S: Fn(Number, usize) -> String>(
    config: Config,
    candidates: Vec<CandidateResult>,
    show: S,
    messages: Vec<String>,
) -> (groups: Seq<Seq<Seq<char>>>)
    requires
        number::shows(show),
        call_ensures(candidate_summaries::<S>, (&config, &candidates, &show), messages),
    ensures
        candidates@.len() == 0 <==> messages@.len() == 0,
        groups.flatten().len() == candidates@.len(),
        forall|i: int|
            0 <= i < candidates@.len() ==> #[trigger] groups.flatten()[i] == telegram::link_of(
                candidates@[i].symbol@,
            ) + telegram::escaped(
                " | im Band "@ + number::showings(show)(candidates@[i].sideways_close_ratio, 1)
                    + "% | letzter Spike +"@ + number::showings(show)(
                    candidates@[i].latest_spike_pct,
                    2,
                ) + "% | größter Spike +"@ + number::showings(show)(
                    candidates@[i].largest_spike_pct,
                    2,
                ) + "% | Volumen "@ + number::showings(show)(candidates@[i].quote_volume_24h, 0)
                    + "\n"@,
            ),
        are_filled(
            telegram::escaped(
                "Historische Kandidaten: "@ + text::decimal(candidates@.len() as int)
                    + "\nFenster: "@ + config.rolling_window@ + ", Kerzen: "@
                    + config.candle_interval@ + "\n\n"@,
            ),
            groups,
            ordering::views(messages@),
        ),
{
    let heading = telegram::summary_heading(config@, candidates@.len());
    let told = telegram::summary_lines(
        number::showings(show),
        ordering::views(candidates@),
    );
    let nothing = Seq::<Seq<char>>::empty();
    assert(nothing.flatten() =~= Seq::<char>::empty());
    assert(heading + nothing.flatten() =~= heading);
    if candidates@.len() == 0 {
        assert(told =~= nothing);
        assert(ordering::views(messages@) =~= nothing);
        Seq::empty()
    } else {
        reveal_strlit("[");
        assert forall|i: int| 0 <= i < told.len() implies (#[trigger] told[i]).len() > 0 by {
            assert(telegram::link_of(candidates@[i].symbol@).len() > 0);
        }
        let groups = lemma_filled(heading, told, nothing, true);
        assert(nothing + told =~= told);
        assert(ordering::views(messages@) == telegram::packed(heading, told, heading));
        groups
    }
}

/// An alert tells the times of both spikes, each in the line of its spike.
pub proof fn law_alerts_tell_the_times_of_spikes<
    C: Fn(Operation) -> Number,
    S: Fn(Number, usize) -> String,
>(
    config: Config,
    candidate: CandidateResult,
    calc: C,
    show: S,
    message: String,
)
    requires
        number::calculates(calc),
        number::shows(show),
        call_ensures(candidate_message::<C, S>, (&config, &candidate, &calc, &show), message),
        forall|n: Number, decimals: usize|
            is_unbroken(#[trigger] number::showings(show)(n, decimals)),
        forall|timestamp_ms: i64, told: Seq<char>|
            #[trigger] time_utils::may_tell(timestamp_ms, told) ==> is_unbroken(told),
        is_unbroken(config.rolling_window@),
        is_unbroken(config.candle_interval@),
    ensures
        exists|latest_time: Seq<char>, largest_time: Seq<char>|
            #[trigger] time_utils::may_tell(candidate.latest_spike_time_ms, latest_time)
                && #[trigger] time_utils::may_tell(candidate.largest_spike_time_ms, largest_time)
                && lines(message@)[7] == telegram::escaped(
                "Jüngster Spike: +"@ + number::showings(show)(candidate.latest_spike_pct, 2)
                    + "% am "@ + latest_time,
            ) && lines(message@)[9] == telegram::escaped(
                "Größter Spike: +"@ + number::showings(show)(candidate.largest_spike_pct, 2)
                    + "% am "@ + largest_time,
            ),
{
    let arithmetic = number::answers(calc);
    let shown = number::showings(show);
    let (latest_time, largest_time) = choose|latest_time: Seq<char>, largest_time: Seq<char>|
        #[trigger] time_utils::may_tell(candidate.latest_spike_time_ms, latest_time)
            && #[trigger] time_utils::may_tell(candidate.largest_spike_time_ms, largest_time)
            && message@ == telegram::candidate_alert(
            arithmetic,
            shown,
            config@,
            candidate@,
            latest_time,
            largest_time,
        );
    lemma_told_lines(arithmetic, shown, config@, candidate@, latest_time, largest_time);
    let plain = telegram::candidate_text(
        arithmetic,
        shown,
        config@,
        candidate@,
        latest_time,
        largest_time,
    );
    lemma_escaped_lines(plain);
    let sent = telegram::escaped(plain);
    reveal_strlit("\n\n");
    lemma_earlier_lines(sent, "\n\n"@ + telegram::link_of(candidate.symbol@));
    assert(sent + "\n\n"@ + telegram::link_of(candidate.symbol@) =~= sent + ("\n\n"@
        + telegram::link_of(candidate.symbol@)));
    assert(lines(sent)[7] == lines(message@)[7]);
    assert(lines(sent)[9] == lines(message@)[9]);
}

/// More text leaves all lines but the last as they are.
proof fn lemma_earlier_lines(chars: Seq<char>, more: Seq<char>)
    ensures
        lines(chars + more).len() >= lines(chars).len(),
        forall|i: int|
            0 <= i < lines(chars).len() - 1 ==> #[trigger] lines(chars + more)[i] == lines(
                chars,
            )[i],
    decreases more.len(),
{
    lemma_some_line(chars);
    if more.len() == 0 {
        assert(chars + more =~= chars);
    } else {
        let rest = more.drop_last();
        lemma_earlier_lines(chars, rest);
        assert((chars + more).drop_last() =~= chars + rest);
    }
}

} // verus!
