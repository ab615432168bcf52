//! From a line of a list to the endpoint it names, and from a whole list to its
//! entries.

use crate::decimal::unsigned_value;
use crate::endpoint::{
    address_part, address_value, endpoint_text, endpoint_value, lemma_endpoint_round_trip,
    lemma_endpoint_text_is_word, parse_endpoint, port_part, Endpoint, ExtractError,
};
use crate::text::{
    chars_of, field, field_slice, is_blank, is_blank_slice, is_space, is_word, lemma_field_first,
    lemma_field_next, lemma_trim_core, lines, split_first, string_of, strip_cr_slice, trim,
    trim_slice,
};
use vstd::prelude::*;

verus! {

/// Where in a line the `address:port` part stands.
#[derive(Clone, Copy, Debug, PartialEq, Eq, Structural)]
pub enum LineFormat {
    /// Whitespace-separated fields, the second of which is `address:port`; the
    /// other fields are carried along and not read.
    LegacyBridge,
    /// The whole line, once trimmed, is `address:port`.
    ProxyList,
}

/// One line of a list, kept as it was read, with the format it is to be read in.
#[derive(Debug, PartialEq, Eq)]
pub struct Entry {
    /// The line without its line ending, otherwise untouched.
    pub raw_text: String,
    /// The format that the list was declared to have.
    pub format: LineFormat,
}

impl Clone for Entry {
    fn clone(&self) -> (r: Self)
        ensures
            r == *self,
    {
        Entry { raw_text: self.raw_text.clone(), format: self.format }
    }
}

/// The part of `line` that names the endpoint. For a line of fields that has no
/// second field this is the empty sequence.
pub open spec fn relevant_part(line: Seq<char>, format: LineFormat) -> Seq<char> {
    match format {
        LineFormat::LegacyBridge => field(line, 1),
        LineFormat::ProxyList => trim(line),
    }
}

/// What extraction yields for `line` read in `format`.
pub open spec fn extraction(line: Seq<char>, format: LineFormat) -> Result<
    Endpoint,
    ExtractError,
> {
    endpoint_value(relevant_part(line, format))
}

/// The lines of `text` that are entries: the lines of the trimmed text that are not
/// blank, in order.
pub open spec fn entry_lines(text: Seq<char>) -> Seq<Seq<char>> {
    lines(trim(text)).filter(|line: Seq<char>| !is_blank(line))
}

/// The raw text of each entry, in order.
pub open spec fn raw_texts(entries: Seq<Entry>) -> Seq<Seq<char>> {
    entries.map_values(|entry: Entry| entry.raw_text@)
}

/// In the format of whitespace-separated fields, extraction reads the second field
/// and nothing else: whatever the first field is, whatever whitespace separates the
/// fields, and whatever follows the second field, the line yields what the second
/// field alone denotes.
pub proof fn lemma_legacy_bridge_reads_second_field(
    lead: Seq<char>,
    first: Seq<char>,
    gap: Seq<char>,
    second: Seq<char>,
    rest: Seq<char>,
)
    requires
        is_blank(lead),
        is_word(first),
        first.len() > 0,
        is_blank(gap),
        gap.len() > 0,
        is_word(second),
        second.len() > 0,
        rest.len() == 0 || is_space(rest[0]),
    ensures
        relevant_part(lead + first + gap + second + rest, LineFormat::LegacyBridge) == second,
        extraction(lead + first + gap + second + rest, LineFormat::LegacyBridge)
            == endpoint_value(second),
{
    let tail = gap + second + rest;
    assert(lead + first + gap + second + rest =~= lead + first + tail);
    assert(tail[0] == gap[0]);
    lemma_field_next(lead, first, tail, 0);
    lemma_field_first(gap, second, rest);
}

/// In the format of one endpoint per line, whitespace around the endpoint is not
/// read.
pub proof fn lemma_proxy_list_reads_trimmed_line(
    lead: Seq<char>,
    core: Seq<char>,
    trail: Seq<char>,
)
    requires
        is_blank(lead),
        is_blank(trail),
        core.len() == 0 || (!is_space(core[0]) && !is_space(core.last())),
    ensures
        extraction(lead + core + trail, LineFormat::ProxyList) == endpoint_value(core),
{
    lemma_trim_core(lead, core, trail);
}

/// A line whose relevant part holds no colon is malformed, in either format.
pub proof fn lemma_no_colon_is_malformed(line: Seq<char>, format: LineFormat)
    requires
        !relevant_part(line, format).contains(':'),
    ensures
        extraction(line, format) == Err::<Endpoint, ExtractError>(ExtractError::MalformedEndpoint),
{
}

/// A port that is no unsigned 16-bit integer does not fail the line: where the
/// relevant part has a colon and a valid address before it, extraction yields that
/// address with port 0.
pub proof fn lemma_unreadable_port_is_zero(line: Seq<char>, format: LineFormat)
    requires
        relevant_part(line, format).contains(':'),
        address_value(address_part(relevant_part(line, format))) is Some,
        unsigned_value(port_part(relevant_part(line, format)), 65535) is None,
    ensures
        extraction(line, format) == Ok::<Endpoint, ExtractError>(
            Endpoint {
                address: address_value(address_part(relevant_part(line, format)))->0,
                port: 0,
            },
        ),
{
}

/// An endpoint written alone on a line reads back from that line in the format of
/// one endpoint per line, and so it does as the second field of a line of fields.
pub proof fn lemma_extraction_round_trip(endpoint: Endpoint, first: Seq<char>, rest: Seq<char>)
    requires
        is_word(first),
        first.len() > 0,
        rest.len() == 0 || is_space(rest[0]),
    ensures
        extraction(endpoint_text(endpoint), LineFormat::ProxyList) == Ok::<
            Endpoint,
            ExtractError,
        >(endpoint),
        extraction(first + seq![' '] + endpoint_text(endpoint) + rest, LineFormat::LegacyBridge)
            == Ok::<Endpoint, ExtractError>(endpoint),
{
    let text = endpoint_text(endpoint);
    lemma_endpoint_text_is_word(endpoint);
    lemma_endpoint_round_trip(endpoint);
    assert(Seq::<char>::empty() + text + Seq::<char>::empty() =~= text);
    lemma_trim_core(Seq::empty(), text, Seq::empty());
    assert(Seq::<char>::empty() + first + seq![' '] + text + rest =~= first + seq![' '] + text
        + rest);
    lemma_legacy_bridge_reads_second_field(Seq::empty(), first, seq![' '], text, rest);
}

/// The part of `line` that names the endpoint.
pub fn relevant_slice(line: &[char], format: LineFormat) -> (r: &[char])
    ensures
        r@ == relevant_part(line@, format),
{
    match format {
        LineFormat::LegacyBridge => field_slice(line, 1),
        LineFormat::ProxyList => trim_slice(line),
    }
}

/// Extracts the endpoint that `raw_text` names when read in `format`. A relevant
/// part without a colon is malformed; with one, an address that does not parse is
/// invalid; and a port that does not parse is port 0, never an error.
pub fn extract(raw_text: &str, format: LineFormat) -> (r: Result<Endpoint, ExtractError>)
    ensures
        r == extraction(raw_text@, format),
        !relevant_part(raw_text@, format).contains(':') ==> r == Err::<Endpoint, ExtractError>(
            ExtractError::MalformedEndpoint,
        ),
        relevant_part(raw_text@, format).contains(':') && address_value(
            address_part(relevant_part(raw_text@, format)),
        ) is None ==> r == Err::<Endpoint, ExtractError>(ExtractError::InvalidAddress),
        relevant_part(raw_text@, format).contains(':') && address_value(
            address_part(relevant_part(raw_text@, format)),
        ) is Some && unsigned_value(port_part(relevant_part(raw_text@, format)), 65535) is None
            ==> (r matches Ok(endpoint) && endpoint.port == 0),
{
    let chars = chars_of(raw_text);
    let part = relevant_slice(chars.as_slice(), format);
    parse_endpoint(part)
}

impl Entry {
    /// The endpoint that this entry names.
    pub fn endpoint(&self) -> (r: Result<Endpoint, ExtractError>)
        ensures
            r == extraction(self.raw_text@, self.format),
    {
        extract(self.raw_text.as_str(), self.format)
    }
}

/// The entries of `text`, all to be read in `format`: one for each line of the
/// trimmed text that is not blank, in the order of the text.
pub fn entries(text: &str, format: LineFormat) -> (r: Vec<Entry>)
    ensures
        raw_texts(r@) == entry_lines(text@),
        forall|i: int| 0 <= i < r@.len() ==> (#[trigger] r@[i]).format == format,
        forall|i: int| 0 <= i < r@.len() ==> !is_blank((#[trigger] r@[i]).raw_text@),
        trim(text@).len() == 0 ==> r@.len() == 0,
{
    let chars = chars_of(text);
    let body = trim_slice(chars.as_slice());
    let ghost keep = |line: Seq<char>| !is_blank(line);
    let ghost mut done: Seq<Seq<char>> = Seq::empty();
    let mut out: Vec<Entry> = Vec::new();
    let mut rest = body;
    assert(raw_texts(out@) =~= done.filter(keep)) by {
        reveal(Seq::filter);
    }
    loop
        invariant
            keep == |line: Seq<char>| !is_blank(line),
            body@ == trim(text@),
            lines(body@) == done + lines(rest@),
            raw_texts(out@) == done.filter(keep),
            forall|i: int| 0 <= i < out@.len() ==> (#[trigger] out@[i]).format == format,
            forall|i: int| 0 <= i < out@.len() ==> !is_blank((#[trigger] out@[i]).raw_text@),
            body@.len() == 0 ==> out@.len() == 0 && rest@.len() == 0,
        decreases rest@.len(),
    {
        if rest.len() == 0 {
            assert(done + lines(rest@) =~= done);
            return out;
        }
        let (head, tail) = split_first(rest, '\n');
        let line = match tail {
            Some(_) => strip_cr_slice(head),
            None => head,
        };
        proof {
            let before = done;
            done = done.push(line@);
            before.lemma_filter_push(line@, keep);
            if tail is Some {
                assert(before + (seq![line@] + lines(tail->0@)) =~= done + lines(tail->0@));
            } else {
                assert(head@ =~= rest@);
                assert(before + seq![rest@] =~= done);
            }
        }
        if !is_blank_slice(line) {
            let ghost texts = raw_texts(out@);
            let entry = Entry { raw_text: string_of(line), format };
            out.push(entry);
            assert(raw_texts(out@) =~= texts.push(line@));
        }
        match tail {
            Some(t) => {
                rest = t;
            },
            None => {
                assert(done + Seq::<Seq<char>>::empty() =~= done);
                return out;
            },
        }
    }
}

} // verus!
