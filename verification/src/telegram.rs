//! Messages to the Telegram chat.

use crate::config::{Config, ConfigView};
use crate::detector::{CandidateResult, CandidateView};
use crate::json;
use crate::json::{object_text, JsonValue, JsonView};
use crate::number;
use crate::number::{compute, show_number, Number, Operation};
use crate::ordering;
use crate::status;
use crate::status::HttpStatus;
use crate::text;
use crate::text::{byte_len, decimal_text, strip_suffix};
use crate::time_utils;
use crate::time_utils::format_epoch_ms;
use vstd::prelude::*;
use vstd::string::*;

verus! {

/// The bytes that a message may have without being refused for its length.
pub const TELEGRAM_SAFE_MESSAGE_LEN: usize = 3_800;

/// The bit pattern of 3600000, the milliseconds of an hour.
pub const HOUR_MS_BITS: u64 = 0x414b_7740_0000_0000;

/// Whether a character has a meaning of its own in MarkdownV2.
pub open spec fn is_reserved(c: char) -> bool {
    ||| c == '_'
    ||| c == '*'
    ||| c == '['
    ||| c == ']'
    ||| c == '('
    ||| c == ')'
    ||| c == '~'
    ||| c == '`'
    ||| c == '>'
    ||| c == '#'
    ||| c == '+'
    ||| c == '-'
    ||| c == '='
    ||| c == '|'
    ||| c == '{'
    ||| c == '}'
    ||| c == '.'
    ||| c == '!'
}

/// A character with a backslash before it, where it needs one.
pub open spec fn escaped_char(c: char) -> Seq<char> {
    if is_reserved(c) {
        seq!['\\', c]
    } else {
        seq![c]
    }
}

/// A text with a backslash before each character that has a meaning of its own.
pub open spec fn escaped(chars: Seq<char>) -> Seq<char>
    decreases chars.len(),
{
    if chars.len() == 0 {
        seq![]
    } else {
        escaped(chars.drop_last()) + escaped_char(chars.last())
    }
}

/// Escaping loses nothing: different texts stay different.
pub proof fn law_escaping_is_reversible(a: Seq<char>, b: Seq<char>)
    requires
        escaped(a) == escaped(b),
    ensures
        a == b,
    decreases a.len(),
{
    if a.len() == 0 || b.len() == 0 {
        assert(a =~= b);
    } else {
        let left = escaped(a.drop_last());
        let right = escaped(b.drop_last());
        assert(escaped(a).last() == a.last());
        assert(escaped(b).last() == b.last());
        assert(escaped(a).take(left.len() as int) =~= left);
        assert(escaped(b).take(right.len() as int) =~= right);
        law_escaping_is_reversible(a.drop_last(), b.drop_last());
        assert(a =~= a.drop_last().push(a.last()));
        assert(b =~= b.drop_last().push(b.last()));
    }
}

/// In an escaped text every reserved character stands right behind a backslash.
pub proof fn law_reserved_is_escaped(chars: Seq<char>, i: int)
    requires
        0 <= i < escaped(chars).len(),
        is_reserved(escaped(chars)[i]),
    ensures
        i > 0,
        escaped(chars)[i - 1] == '\\',
    decreases chars.len(),
{
    let before = escaped(chars.drop_last());
    if i < before.len() {
        law_reserved_is_escaped(chars.drop_last(), i);
    }
}

/// Puts a backslash before each character that has a meaning of its own.
pub fn escape_markdown_v2(text: &str) -> (result: String)
    ensures
        result@ == escaped(text@),
{
    let mut escaped_text = String::new();
    assert(text@.take(0) =~= Seq::<char>::empty());
    for ch in iter: text.chars()
        invariant
            iter.seq() == text@,
            escaped_text@ == escaped(text@.take(iter.index() as int)),
    {
        assert(text@.take(iter.index() + 1).drop_last() =~= text@.take(iter.index() as int));
        match ch {
            '_' | '*' | '[' | ']' | '(' | ')' | '~' | '`' | '>' | '#' | '+' | '-' | '=' | '|'
            | '{' | '}' | '.' | '!' => {
                escaped_text.push('\\');
                escaped_text.push(ch);
            },
            _ => escaped_text.push(ch),
        }
        assert(escaped_text@ =~= escaped(text@.take(iter.index() + 1)));
    }
    assert(text@.take(text@.len() as int) =~= text@);
    escaped_text
}

/// The name of a market as a pair of assets.
pub open spec fn pair_of(symbol: Seq<char>) -> Seq<char> {
    match text::without_suffix(symbol, "USDT"@) {
        Some(base) => base + "/USDT"@,
        None => symbol,
    }
}

/// The name of a market as a pair of assets.
pub fn display_pair(symbol: &str) -> (result: String)
    ensures
        result@ == pair_of(symbol@),
{
    match strip_suffix(symbol, "USDT") {
        Some(base) => base.concat("/USDT"),
        None => symbol.to_owned(),
    }
}

/// The asset of a market that is traded against USDT.
pub open spec fn base_of(symbol: Seq<char>) -> Seq<char> {
    match text::without_suffix(symbol, "USDT"@) {
        Some(base) => base,
        None => symbol,
    }
}

/// A MarkdownV2 link to the page on which a market is traded.
pub open spec fn link_of(symbol: Seq<char>) -> Seq<char> {
    "["@ + escaped(pair_of(symbol)) + "](https://www.binance.com/de/trade/"@ + base_of(symbol)
        + "_USDT)"@
}

/// A MarkdownV2 link to the page on which a market is traded.
pub fn trade_link(symbol: &str) -> (result: String)
    ensures
        result@ == link_of(symbol@),
{
    let base = match strip_suffix(symbol, "USDT") {
        Some(base) => base,
        None => symbol.to_owned(),
    };
    let pair = display_pair(symbol);
    let mut link = "[".to_owned();
    link.append(escape_markdown_v2(pair.as_str()).as_str());
    link.append("](https://www.binance.com/de/trade/");
    link.append(base.as_str());
    link.append("_USDT)");
    link
}

/// The message on a candidate before it is escaped, without the link. The times of its
/// latest and of its largest spike are given as texts.
pub open spec fn candidate_text(
    calc: spec_fn(Operation) -> Number,
    show: spec_fn(Number, usize) -> Seq<char>,
    config: ConfigView,
    candidate: CandidateView,
    latest_time: Seq<char>,
    largest_time: Seq<char>,
) -> Seq<char> {
    let quiet_hours = calc(
        Operation::Quotient(
            calc(Operation::Millis(candidate.quiet_period_ms)),
            number::pattern(HOUR_MS_BITS),
        ),
    );
    "Seitwärts-Kandidat\n\nAktueller Close: "@ + show(candidate.latest_close, 8) + "\nMedian: "@
        + show(candidate.median_price, 8) + "\nBand: "@ + show(candidate.band_lower, 8) + " bis "@
        + show(candidate.band_upper, 8) + "\nCloses im Band: "@ + show(
        candidate.sideways_close_ratio,
        2,
    ) + "%\n\nJüngster Spike: +"@ + show(candidate.latest_spike_pct, 2) + "% am "@
        + latest_time + "\nJüngstes Spike-High: "@ + show(candidate.latest_spike_high, 8)
        + "\nGrößter Spike: +"@ + show(candidate.largest_spike_pct, 2) + "% am "@
        + largest_time + "\nRuhe seit Spike: "@ + show(quiet_hours, 1) + "h\n\nFenster: "@ + config.rolling_window
        + "\nKerzen: "@ + config.candle_interval + "\n24h Quote-Volumen: "@ + show(
        candidate.quote_volume_24h,
        0,
    )
}

/// The message on a candidate.
pub open spec fn candidate_alert(
    calc: spec_fn(Operation) -> Number,
    show: spec_fn(Number, usize) -> Seq<char>,
    config: ConfigView,
    candidate: CandidateView,
    latest_time: Seq<char>,
    largest_time: Seq<char>,
) -> Seq<char> {
    escaped(candidate_text(calc, show, config, candidate, latest_time, largest_time)) + "\n\n"@
        + link_of(candidate.symbol)
}

/// The message on a candidate, with the times of its spikes in local time.
pub fn candidate_message<C: Fn(Operation) -> Number, S: Fn(Number, usize) -> String>(
    config: &Config,
    candidate: &CandidateResult,
    calc: &C,
    show: &S,
) -> (result: String)
    requires
        number::calculates(*calc),
        number::shows(*show),
    ensures
        exists|latest_time: Seq<char>, largest_time: Seq<char>|
            #[trigger] time_utils::may_tell(candidate.latest_spike_time_ms, latest_time)
                && #[trigger] time_utils::may_tell(candidate.largest_spike_time_ms, largest_time)
                && result@ == candidate_alert(
                number::answers(*calc),
                number::showings(*show),
                config@,
                candidate@,
                latest_time,
                largest_time,
            ),
{
    let latest_time = format_epoch_ms(candidate.latest_spike_time_ms);
    let largest_time = format_epoch_ms(candidate.largest_spike_time_ms);
    timed_message(config, candidate, latest_time.as_str(), largest_time.as_str(), calc, show)
}

/// The message on a candidate, with the times of its latest and of its largest spike
/// given as texts.
pub fn timed_message<C: Fn(Operation) -> Number, S: Fn(Number, usize) -> String>(
    config: &Config,
    candidate: &CandidateResult,
    latest_time: &str,
    largest_time: &str,
    calc: &C,
    show: &S,
) -> (result: String)
    requires
        number::calculates(*calc),
        number::shows(*show),
    ensures
        result@ == candidate_alert(
            number::answers(*calc),
            number::showings(*show),
            config@,
            candidate@,
            latest_time@,
            largest_time@,
        ),
{
    let quiet_ms = compute(calc, Operation::Millis(candidate.quiet_period_ms));
    let quiet_hours = compute(
        calc,
        Operation::Quotient(quiet_ms, Number::from_bits(HOUR_MS_BITS)),
    );
    let mut text = "Seitwärts-Kandidat\n\nAktueller Close: ".to_owned();
    text.append(show_number(show, candidate.latest_close, 8).as_str());
    text.append("\nMedian: ");
    text.append(show_number(show, candidate.median_price, 8).as_str());
    text.append("\nBand: ");
    text.append(show_number(show, candidate.band_lower, 8).as_str());
    text.append(" bis ");
    text.append(show_number(show, candidate.band_upper, 8).as_str());
    text.append("\nCloses im Band: ");
    text.append(show_number(show, candidate.sideways_close_ratio, 2).as_str());
    text.append("%\n\nJüngster Spike: +");
    text.append(show_number(show, candidate.latest_spike_pct, 2).as_str());
    text.append("% am ");
    text.append(latest_time);
    text.append("\nJüngstes Spike-High: ");
    text.append(show_number(show, candidate.latest_spike_high, 8).as_str());
    text.append("\nGrößter Spike: +");
    text.append(show_number(show, candidate.largest_spike_pct, 2).as_str());
    text.append("% am ");
    text.append(largest_time);
    text.append("\nRuhe seit Spike: ");
    text.append(show_number(show, quiet_hours, 1).as_str());
    text.append("h\n\nFenster: ");
    text.append(config.rolling_window.as_str());
    text.append("\nKerzen: ");
    text.append(config.candle_interval.as_str());
    text.append("\n24h Quote-Volumen: ");
    text.append(show_number(show, candidate.quote_volume_24h, 0).as_str());
    let mut message = escape_markdown_v2(text.as_str());
    message.append("\n\n");
    message.append(trade_link(candidate.symbol.as_str()).as_str());
    message
}

/// The first lines of each message that sums up candidates.
pub open spec fn summary_heading(config: ConfigView, count: nat) -> Seq<char> {
    escaped(
        "Historische Kandidaten: "@ + text::decimal(count as int) + "\nFenster: "@
            + config.rolling_window + ", Kerzen: "@ + config.candle_interval + "\n\n"@,
    )
}

/// The line on a candidate in a message that sums up candidates.
pub open spec fn summary_line(
    show: spec_fn(Number, usize) -> Seq<char>,
    candidate: CandidateView,
) -> Seq<char> {
    link_of(candidate.symbol) + escaped(
        " | im Band "@ + show(candidate.sideways_close_ratio, 1) + "% | letzter Spike +"@ + show(
            candidate.latest_spike_pct,
            2,
        ) + "% | größter Spike +"@ + show(candidate.largest_spike_pct, 2) + "% | Volumen "@
            + show(candidate.quote_volume_24h, 0) + "\n"@,
    )
}

/// The lines on some candidates.
pub open spec fn summary_lines(
    show: spec_fn(Number, usize) -> Seq<char>,
    candidates: Seq<CandidateView>,
) -> Seq<Seq<char>> {
    candidates.map_values(|candidate: CandidateView| summary_line(show, candidate))
}

/// Lines packed into messages. Each line is added to the message under way unless
/// that would make it too long: then the message is closed and the next one starts
/// with the heading and this line.
pub open spec fn packed(heading: Seq<char>, lines: Seq<Seq<char>>, message: Seq<char>) -> Seq<
    Seq<char>,
>
    decreases lines.len(),
{
    if lines.len() == 0 {
        if message == heading {
            seq![]
        } else {
            seq![message]
        }
    } else if text::byte_length(message) + text::byte_length(lines[0])
        > TELEGRAM_SAFE_MESSAGE_LEN {
        seq![message] + packed(heading, lines.drop_first(), heading + lines[0])
    } else {
        packed(heading, lines.drop_first(), message + lines[0])
    }
}

/// The line on a candidate.
fn candidate_line<S: Fn(Number, usize) -> String>(candidate: &CandidateResult, show: &S) -> (result:
    String)
    requires
        number::shows(*show),
    ensures
        result@ == summary_line(number::showings(*show), candidate@),
{
    let mut metrics = " | im Band ".to_owned();
    metrics.append(show_number(show, candidate.sideways_close_ratio, 1).as_str());
    metrics.append("% | letzter Spike +");
    metrics.append(show_number(show, candidate.latest_spike_pct, 2).as_str());
    metrics.append("% | größter Spike +");
    metrics.append(show_number(show, candidate.largest_spike_pct, 2).as_str());
    metrics.append("% | Volumen ");
    metrics.append(show_number(show, candidate.quote_volume_24h, 0).as_str());
    metrics.append("\n");
    let mut line = trade_link(candidate.symbol.as_str());
    line.append(escape_markdown_v2(metrics.as_str()).as_str());
    line
}

/// The messages that sum up some candidates, in the order in which they are sent.
pub fn candidate_summaries<S: Fn(Number, usize) -> String>(
    config: &Config,
    candidates: &Vec<CandidateResult>,
    show: &S,
) -> (result: Vec<String>)
    requires
        number::shows(*show),
    ensures
        ({
            let heading = summary_heading(config@, candidates@.len());
            ordering::views(result@) == packed(
                heading,
                summary_lines(number::showings(*show), ordering::views(candidates@)),
                heading,
            )
        }),
{
    let mut plain = "Historische Kandidaten: ".to_owned();
    plain.append(decimal_text(candidates.len() as i128).as_str());
    plain.append("\nFenster: ");
    plain.append(config.rolling_window.as_str());
    plain.append(", Kerzen: ");
    plain.append(config.candle_interval.as_str());
    plain.append("\n\n");
    let heading = escape_markdown_v2(plain.as_str());
    let ghost lines = summary_lines(number::showings(*show), ordering::views(candidates@));
    let ghost wanted = packed(heading@, lines, heading@);
    let mut messages: Vec<String> = Vec::new();
    let mut message = heading.clone();
    let mut i: usize = 0;
    assert(lines.skip(0) =~= lines);
    assert(ordering::views(messages@) + wanted =~= wanted);
    while i < candidates.len()
        invariant
            i <= candidates.len(),
            number::shows(*show),
            lines == summary_lines(number::showings(*show), ordering::views(candidates@)),
            ordering::views(messages@) + packed(heading@, lines.skip(i as int), message@)
                == wanted,
        decreases candidates.len() - i,
    {
        let line = candidate_line(&candidates[i], show);
        let ghost rest = lines.skip(i as int);
        let ghost closed = ordering::views(messages@);
        assert(rest[0] == line@);
        assert(rest.drop_first() =~= lines.skip(i + 1));
        let line_len = byte_len(line.as_str());
        if line_len > TELEGRAM_SAFE_MESSAGE_LEN || byte_len(message.as_str())
            > TELEGRAM_SAFE_MESSAGE_LEN - line_len {
            let ghost sent = message@;
            messages.push(message);
            assert(ordering::views(messages@) =~= closed.push(sent));
            message = heading.clone();
            assert(closed + (seq![sent] + packed(heading@, lines.skip(i + 1), heading@ + line@))
                =~= closed.push(sent) + packed(heading@, lines.skip(i + 1), heading@ + line@));
        }
        message.append(line.as_str());
        i += 1;
    }
    let ghost closed = ordering::views(messages@);
    if message != heading {
        let ghost sent = message@;
        messages.push(message);
        assert(ordering::views(messages@) =~= closed + seq![sent]);
    } else {
        assert(closed + Seq::<Seq<char>>::empty() =~= closed);
    }
    messages
}

/// What messages hold behind the heading, one after the other.
pub open spec fn bodies(heading: Seq<char>, messages: Seq<Seq<char>>) -> Seq<char> {
    messages.map_values(|message: Seq<char>| message.skip(heading.len() as int)).flatten()
}

/// Packing on top of a message that starts with the heading keeps every line.
proof fn lemma_packed_keeps_lines(heading: Seq<char>, lines: Seq<Seq<char>>, body: Seq<char>)
    ensures
        forall|i: int|
            0 <= i < packed(heading, lines, heading + body).len() ==> heading.is_prefix_of(
                #[trigger] packed(heading, lines, heading + body)[i],
            ),
        bodies(heading, packed(heading, lines, heading + body)) == body + lines.flatten(),
    decreases lines.len(),
{
    let message = heading + body;
    let strip = |m: Seq<char>| m.skip(heading.len() as int);
    assert(strip(message) =~= body);
    assert(heading.is_prefix_of(message));
    if lines.len() == 0 {
        if message == heading {
            assert(message.len() == heading.len() + body.len());
            assert(body =~= Seq::<char>::empty());
            assert(packed(heading, lines, message).map_values(strip) =~= Seq::<
                Seq<char>,
            >::empty());
        } else {
            let sent = packed(heading, lines, message).map_values(strip);
            assert(sent =~= seq![body]);
            sent.lemma_flatten_one_element();
        }
        assert(body + lines.flatten() =~= body);
    } else {
        let rest = lines.drop_first();
        if text::byte_length(message) + text::byte_length(lines[0]) > TELEGRAM_SAFE_MESSAGE_LEN {
            lemma_packed_keeps_lines(heading, rest, lines[0]);
            let later = packed(heading, rest, heading + lines[0]);
            let all = seq![message] + later;
            let sent = all.map_values(strip);
            assert(sent.drop_first() =~= later.map_values(strip));
            assert(sent[0] == body);
            assert forall|i: int| 0 <= i < all.len() implies heading.is_prefix_of(
                #[trigger] all[i],
            ) by {
                if i > 0 {
                    assert(all[i] == later[i - 1]);
                }
            }
        } else {
            lemma_packed_keeps_lines(heading, rest, body + lines[0]);
            assert(heading + (body + lines[0]) =~= message + lines[0]);
            assert((body + lines[0]) + rest.flatten() =~= body + (lines[0] + rest.flatten()));
        }
    }
}

/// Every message that sums up candidates starts with the heading, and behind the
/// headings stand all lines, in order and none twice.
pub proof fn law_summaries_keep_every_line(heading: Seq<char>, lines: Seq<Seq<char>>)
    ensures
        forall|i: int|
            0 <= i < packed(heading, lines, heading).len() ==> heading.is_prefix_of(
                #[trigger] packed(heading, lines, heading)[i],
            ),
        bodies(heading, packed(heading, lines, heading)) == lines.flatten(),
{
    let nothing = Seq::<char>::empty();
    lemma_packed_keeps_lines(heading, lines, nothing);
    assert(heading + nothing =~= heading);
    assert(nothing + lines.flatten() =~= lines.flatten());
}

/// Where each line fits behind the heading, no message exceeds the safe length.
pub proof fn law_summaries_stay_within_limit(
    heading: Seq<char>,
    lines: Seq<Seq<char>>,
    message: Seq<char>,
)
    requires
        text::byte_length(message) <= TELEGRAM_SAFE_MESSAGE_LEN,
        forall|i: int|
            0 <= i < lines.len() ==> text::byte_length(heading) + text::byte_length(
                #[trigger] lines[i],
            ) <= TELEGRAM_SAFE_MESSAGE_LEN,
    ensures
        forall|i: int|
            0 <= i < packed(heading, lines, message).len() ==> text::byte_length(
                #[trigger] packed(heading, lines, message)[i],
            ) <= TELEGRAM_SAFE_MESSAGE_LEN,
    decreases lines.len(),
{
    if lines.len() > 0 {
        let rest = lines.drop_first();
        assert forall|i: int| 0 <= i < rest.len() implies text::byte_length(heading)
            + text::byte_length(#[trigger] rest[i]) <= TELEGRAM_SAFE_MESSAGE_LEN by {
            assert(rest[i] == lines[i + 1]);
        }
        text::lemma_byte_length_concat(heading, lines[0]);
        text::lemma_byte_length_concat(message, lines[0]);
        if text::byte_length(message) + text::byte_length(lines[0]) > TELEGRAM_SAFE_MESSAGE_LEN {
            law_summaries_stay_within_limit(heading, rest, heading + lines[0]);
            let later = packed(heading, rest, heading + lines[0]);
            let all = seq![message] + later;
            assert forall|i: int| 0 <= i < all.len() implies text::byte_length(#[trigger] all[i])
                <= TELEGRAM_SAFE_MESSAGE_LEN by {
                if i > 0 {
                    assert(all[i] == later[i - 1]);
                }
            }
            assert(packed(heading, lines, message) == all);
        } else {
            law_summaries_stay_within_limit(heading, rest, message + lines[0]);
            assert(packed(heading, lines, message) == packed(heading, rest, message + lines[0]));
        }
    } else if message != heading {
        assert(packed(heading, lines, message) =~= seq![message]);
    } else {
        assert(packed(heading, lines, message) =~= Seq::<Seq<char>>::empty());
    }
}

/// The address to which messages of a bot are posted.
pub fn send_message_url(token: &str) -> (result: String)
    ensures
        result@ == "https://api.telegram.org/bot"@ + token@ + "/sendMessage"@,
{
    let mut url = "https://api.telegram.org/bot".to_owned();
    url.append(token);
    url.append("/sendMessage");
    url
}

/// The members of the body with which a message is posted.
pub open spec fn message_members(chat_id: Seq<char>, text: Seq<char>) -> Seq<
    (Seq<char>, JsonView),
> {
    seq![
        ("chat_id"@, JsonView::Text(chat_id)),
        ("disable_web_page_preview"@, JsonView::Flag(true)),
        ("parse_mode"@, JsonView::Text("MarkdownV2"@)),
        ("text"@, JsonView::Text(text)),
    ]
}

/// The names in the body stand in ascending order.
proof fn lemma_members_ascend(chat_id: Seq<char>, text: Seq<char>)
    ensures
        json::ascending_names(message_members(chat_id, text)),
{
    reveal_strlit("chat_id");
    reveal_strlit("disable_web_page_preview");
    reveal_strlit("parse_mode");
    reveal_strlit("text");
    let members = message_members(chat_id, text);
    ordering::lemma_first_letter_orders("chat_id"@, "disable_web_page_preview"@);
    ordering::lemma_first_letter_orders("chat_id"@, "parse_mode"@);
    ordering::lemma_first_letter_orders("chat_id"@, "text"@);
    ordering::lemma_first_letter_orders("disable_web_page_preview"@, "parse_mode"@);
    ordering::lemma_first_letter_orders("disable_web_page_preview"@, "text"@);
    ordering::lemma_first_letter_orders("parse_mode"@, "text"@);
    assert(members[0].0 == "chat_id"@ && members[1].0 == "disable_web_page_preview"@
        && members[2].0 == "parse_mode"@ && members[3].0 == "text"@);
}

/// The body with which a message is posted.
pub fn message_body(chat_id: &str, text: &str) -> (result: String)
    ensures
        result@ == json::json_object(message_members(chat_id@, text@)),
{
    let mut members: Vec<(String, JsonValue)> = Vec::new();
    members.push(("chat_id".to_owned(), JsonValue::Text(chat_id.to_owned())));
    members.push(("disable_web_page_preview".to_owned(), JsonValue::Flag(true)));
    members.push(("parse_mode".to_owned(), JsonValue::Text("MarkdownV2".to_owned())));
    members.push(("text".to_owned(), JsonValue::Text(text.to_owned())));
    proof {
        lemma_members_ascend(chat_id@, text@);
        assert(json::member_views(members@) =~= message_members(chat_id@, text@));
    }
    object_text(&members)
}

/// Judges the response to a message: an error tells its status and body.
pub fn check_response(status: HttpStatus, body: &str) -> (result: Result<(), String>)
    ensures
        match result {
            Ok(_) => 200 <= status@ < 300,
            Err(error) => !(200 <= status@ < 300) && error@ == "telegram sendMessage failed: "@
                + status::status_words(status@) + " "@ + body@,
        },
{
    if status.is_success() {
        return Ok(());
    }
    let mut error = "telegram sendMessage failed: ".to_owned();
    error.append(status.message().as_str());
    error.append(" ");
    error.append(body);
    Err(error)
}

} // verus!
