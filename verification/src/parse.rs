//! Building envelopes from what a store's wire or file format hands
//! back, once it is reduced to plain values: header names and values,
//! raw header bytes, flags.
//!
//! Decoding proper — RFC 2047 words, date strings, address lists —
//! is the business of outside decoders, named here; everything around
//! them is verified.

use vstd::prelude::*;

use crate::envelope::{Envelope, Mailbox};
use crate::flag::Flags;
use crate::numstr::{i64_to_string, spec_dec_chars, spec_dec_chars_int};

verus! {

/// Why an envelope could not be built.
#[derive(Debug)]
pub enum EnvelopeParseError {
    /// The fetch carried no unique identifier.
    GetUid(u32),
    /// The fetch carried no envelope section.
    GetEnvelope(String),
    /// A header did not decode.
    DecodeHeader(String),
    /// The envelope names no sender.
    GetSender(String),
    /// The sender could not be read as a single address.
    ParseSender,
    /// A date header did not parse as a timestamp.
    ParseTimestamp(String),
}

/// What the timestamp of a date header is, where it parses. Relies on
/// the parser named in `parse_date`.
pub uninterp spec fn date_timestamp_of(s: Seq<char>) -> i64;

/// Whether a date header parses as a timestamp at all. Relies on the
/// parser named in `parse_date`.
pub uninterp spec fn date_parses(s: Seq<char>) -> bool;

/// Relies on mailparse's `dateparse`: reads an RFC 822 date string as
/// a unix timestamp; both the outcome and the value are pure
/// functions of the characters.
#[verifier::external_body]
fn parse_date(s: &str) -> (r: Option<i64>)
    ensures
        r is Some <==> date_parses(s@),
        r matches Some(t) ==> t == date_timestamp_of(s@),
{
    mailparse::dateparse(s).ok()
}

/// What decoding RFC 2047 encoded words yields, where it succeeds.
/// Relies on the decoder named in `decode_header`.
pub uninterp spec fn rfc2047_decoded_of(bytes: Seq<u8>) -> Seq<char>;

/// Whether a header's encoded words decode at all. Relies on the
/// decoder named in `decode_header`.
pub uninterp spec fn rfc2047_decodes(bytes: Seq<u8>) -> bool;

/// Relies on rfc2047-decoder's `Decoder::decode`, decoding overlong
/// encoded words rather than failing on them; both the outcome and
/// the text are pure functions of the bytes.
#[verifier::external_body]
fn decode_header(bytes: &Vec<u8>) -> (r: Option<String>)
    ensures
        r is Some <==> rfc2047_decodes(bytes@),
        r matches Some(s) ==> s@ == rfc2047_decoded_of(bytes@),
{
    rfc2047_decoder::Decoder::new().too_long_encoded_word_strategy(
        rfc2047_decoder::RecoverStrategy::Decode,
    ).decode(bytes.as_slice()).ok()
}

/// What reading an address list's first single address yields, where
/// one exists: its display name and its address. Relies on the parser
/// named in `parse_single_address`.
pub uninterp spec fn parsed_address_of(s: Seq<char>) -> Option<(Option<Seq<char>>, Seq<char>)>;

/// The view of an optionally-named address.
pub open spec fn spec_opt_address(r: Option<(Option<String>, String)>) -> Option<
    (Option<Seq<char>>, Seq<char>),
> {
    match r {
        Some((Some(n), a)) => Some((Some(n@), a@)),
        Some((None, a)) => Some((None, a@)),
        None => None,
    }
}

/// Relies on mailparse's `addrparse`: reads an address header; the
/// result is the first address, where the list parses, starts with a
/// single (non-group) address, and is not empty.
#[verifier::external_body]
fn parse_single_address(s: &str) -> (r: Option<(Option<String>, String)>)
    ensures
        spec_opt_address(r) == parsed_address_of(s@),
{
    match mailparse::addrparse(s) {
        Ok(list) => match list.first() {
            Some(mailparse::MailAddr::Single(single)) => Some(
                (single.display_name.clone(), single.addr.clone()),
            ),
            _ => None,
        },
        Err(_) => None,
    }
}

/// Whether two header names are the same, ASCII case aside.
pub open spec fn spec_ascii_lower(c: char) -> char {
    if 'A' <= c <= 'Z' {
        ((c as u8) + 0x20) as char
    } else {
        c
    }
}

/// Whether a header name equals a target written in lowercase.
pub open spec fn spec_header_is(key: Seq<char>, target: Seq<char>) -> bool {
    key.map_values(|c: char| spec_ascii_lower(c)) == target
}

/// Whether a header name equals the target, ASCII case aside; the
/// target is given in lowercase.
fn header_is(key: &str, target: &str) -> (r: bool)
    ensures
        r == spec_header_is(key@, target@),
{
    let kn = key.unicode_len();
    let tn = target.unicode_len();
    if kn != tn {
        proof {
            assert(key@.map_values(|c: char| spec_ascii_lower(c)).len() == kn);
        }
        return false;
    }
    let mut i: usize = 0;
    while i < kn
        invariant
            kn == key@.len(),
            kn == target@.len(),
            i <= kn,
            forall|k: int| 0 <= k < i ==> spec_ascii_lower(key@[k]) == target@[k],
        decreases kn - i,
    {
        let c = key.get_char(i);
        let lowered: char = if 'A' <= c && c <= 'Z' {
            (((c as u8) + 0x20)) as char
        } else {
            c
        };
        proof {
            assert(lowered == spec_ascii_lower(key@[i as int]));
        }
        if lowered != target.get_char(i) {
            return false;
        }
        i = i + 1;
    }
    proof {
        assert(key@.map_values(|c: char| spec_ascii_lower(c)) =~= target@);
    }
    true
}

/// The fields recognized headers set, walked in order: the last
/// occurrence of each recognized header wins, as the headers are read
/// front to back.
pub open spec fn spec_headers_fold(
    headers: Seq<(Seq<char>, Seq<char>)>,
    acc: (Seq<char>, Seq<char>, Option<(Option<Seq<char>>, Seq<char>)>, Option<i64>),
) -> (Seq<char>, Seq<char>, Option<(Option<Seq<char>>, Seq<char>)>, Option<i64>)
    decreases headers.len(),
{
    if headers.len() == 0 {
        acc
    } else {
        let key = headers.first().0;
        let val = headers.first().1;
        let next = if spec_header_is(key, "message-id"@) {
            (val, acc.1, acc.2, acc.3)
        } else if spec_header_is(key, "subject"@) {
            (acc.0, val, acc.2, acc.3)
        } else if spec_header_is(key, "from"@) {
            (acc.0, acc.1, parsed_address_of(val), acc.3)
        } else if spec_header_is(key, "date"@) {
            (acc.0, acc.1, acc.2, Some(date_timestamp_of(val)))
        } else {
            acc
        };
        spec_headers_fold(headers.drop_first(), next)
    }
}

/// Whether some header of the list is a date header whose value does
/// not parse as a timestamp.
pub open spec fn spec_has_bad_date(headers: Seq<(Seq<char>, Seq<char>)>) -> bool {
    exists|k: int|
        0 <= k < headers.len() && spec_header_is((#[trigger] headers[k]).0, "date"@)
            && !date_parses(headers[k].1)
}

/// Builds a maildir envelope from its store identifier, its filename
/// flags, and its parsed headers, as plain key and value strings.
///
/// The Message-ID, Subject, From and Date headers are read; of a
/// repeated header the last wins. The call succeeds exactly when
/// every date header parses and a sender was read; an absent date is
/// the zero timestamp; the Message-ID is trimmed, and when absent or
/// blank falls back to the decimal timestamp.
#[verifier::loop_isolation(false)]
pub fn envelope_from_headers(
    internal_id: &String,
    flags: Flags,
    headers: &Vec<(String, String)>,
) -> (res: Result<Envelope, EnvelopeParseError>)
    requires
        flags.wf(),
    ensures
        ({
            let hview = headers@.map_values(|h: (String, String)| (h.0@, h.1@));
            let folded = spec_headers_fold(hview, (Seq::empty(), Seq::empty(), None, None));
            &&& (res is Ok <==> !spec_has_bad_date(hview) && folded.2 is Some)
            &&& (match res {
                Ok(e) => {
                    &&& folded.2 matches Some(addr)
                    &&& e@.internal_id == internal_id@
                    &&& e@.id == internal_id@
                    &&& e@.flags == flags@
                    &&& e@.subject == folded.1
                    &&& e@.from.name == addr.0
                    &&& e@.from.addr == addr.1
                    &&& e@.date == (match folded.3 {
                        Some(t) => t as int,
                        None => 0,
                    })
                    &&& e@.message_id == (if spec_trim(folded.0).len() > 0 {
                        spec_trim(folded.0)
                    } else {
                        spec_dec_chars_int(e@.date)
                    })
                    &&& e.wf()
                },
                Err(err) => {
                    &&& (err is ParseTimestamp <==> spec_has_bad_date(hview))
                    &&& (err is GetSender <==> !spec_has_bad_date(hview))
                    &&& (err is GetSender ==> folded.2 is None)
                },
            })
        }),
{
    proof {
        reveal_strlit("message-id");
        reveal_strlit("subject");
        reveal_strlit("from");
        reveal_strlit("date");
        assert("message-id"@.len() == 10);
        assert("subject"@.len() == 7);
        assert("from"@.len() == 4);
        assert("date"@.len() == 4);
        assert("from"@[0] == 'f' && "date"@[0] == 'd');
    }
    let ghost all = headers@.map_values(|h: (String, String)| (h.0@, h.1@));
    let mut message_id = String::new();
    let mut subject = String::new();
    let mut from: Option<(Option<String>, String)> = None;
    let mut date: Option<i64> = None;

    let n = headers.len();
    let mut i: usize = 0;
    proof {
        assert(all.skip(0) =~= all);
    }
    while i < n
        invariant
            n == headers.len(),
            i <= n,
            spec_headers_fold(all, (Seq::empty(), Seq::empty(), None, None))
                == spec_headers_fold(
                all.skip(i as int),
                (message_id@, subject@, spec_opt_address(from), date),
            ),
            forall|k: int|
                0 <= k < i && spec_header_is((#[trigger] all[k]).0, "date"@) ==> date_parses(
                    all[k].1,
                ),
        decreases n - i,
    {
        let key = &headers[i].0;
        let val = &headers[i].1;
        proof {
            assert(all.skip(i as int).first() == (key@, val@));
            assert(all.skip(i as int).drop_first() =~= all.skip(i + 1));
        }
        if header_is(key.as_str(), "message-id") {
            message_id = val.clone();
        } else if header_is(key.as_str(), "subject") {
            subject = val.clone();
        } else if header_is(key.as_str(), "from") {
            from = parse_single_address(val.as_str());
        } else if header_is(key.as_str(), "date") {
            match parse_date(val.as_str()) {
                Some(t) => {
                    date = Some(t);
                },
                None => {
                    proof {
                        assert(spec_header_is(all[i as int].0, "date"@) && !date_parses(
                            all[i as int].1,
                        ));
                    }
                    return Err(EnvelopeParseError::ParseTimestamp(val.clone()));
                },
            }
        }
        i = i + 1;
    }
    proof {
        assert(all.skip(n as int) =~= Seq::<(Seq<char>, Seq<char>)>::empty());
        assert(!spec_has_bad_date(all));
    }

    let (name, addr) = match from {
        Some(pair) => pair,
        None => {
            return Err(EnvelopeParseError::GetSender(internal_id.clone()));
        },
    };
    let date_value: i64 = match date {
        Some(t) => t,
        None => 0,
    };
    let trimmed = trim_ws(message_id.as_str());
    let final_message_id = if trimmed.as_str().unicode_len() > 0 {
        trimmed
    } else {
        i64_to_string(date_value)
    };
    Ok(
        Envelope {
            id: internal_id.clone(),
            internal_id: internal_id.clone(),
            message_id: final_message_id,
            flags,
            subject,
            from: Mailbox { name, addr },
            date: date_value,
        },
    )
}

/// Relies on std's `String::from_utf8`: reads bytes as UTF-8 text,
/// succeeding exactly on valid UTF-8, yielding the characters the
/// bytes encode.
#[verifier::external_body]
fn bytes_to_string(bytes: &Vec<u8>) -> (r: Option<String>)
    ensures
        r is Some <==> vstd::utf8::valid_utf8(bytes@),
        r matches Some(s) ==> s@ == vstd::utf8::decode_utf8(bytes@) && vstd::utf8::encode_utf8(s@)
            == bytes@,
{
    String::from_utf8(bytes.clone()).ok()
}

/// Whether the character counts as trimmable header whitespace.
pub open spec fn spec_is_ws(c: char) -> bool {
    c == ' ' || c == '\t' || c == '\r' || c == '\n'
}

/// The string after its leading whitespace.
pub open spec fn spec_trim_front(s: Seq<char>) -> Seq<char>
    decreases s.len(),
{
    if s.len() > 0 && spec_is_ws(s.first()) {
        spec_trim_front(s.drop_first())
    } else {
        s
    }
}

/// The string before its trailing whitespace.
pub open spec fn spec_trim_back(s: Seq<char>) -> Seq<char>
    decreases s.len(),
{
    if s.len() > 0 && spec_is_ws(s.last()) {
        spec_trim_back(s.drop_last())
    } else {
        s
    }
}

/// The string with leading and trailing whitespace dropped.
pub open spec fn spec_trim(s: Seq<char>) -> Seq<char> {
    spec_trim_back(spec_trim_front(s))
}

proof fn lemma_trim_front_skip(s: Seq<char>, a: int)
    requires
        0 <= a <= s.len(),
        forall|k: int| 0 <= k < a ==> spec_is_ws(#[trigger] s[k]),
        a < s.len() ==> !spec_is_ws(s[a]),
    ensures
        spec_trim_front(s) == s.skip(a),
    decreases a,
{
    if a == 0 {
        assert(s.skip(0) =~= s);
    } else {
        assert(spec_is_ws(s.first()));
        let t = s.drop_first();
        assert(forall|k: int| 0 <= k < a - 1 ==> spec_is_ws(#[trigger] t[k]));
        lemma_trim_front_skip(t, a - 1);
        assert(t.skip(a - 1) =~= s.skip(a));
    }
}

proof fn lemma_trim_back_take(s: Seq<char>, b: int)
    requires
        0 <= b <= s.len(),
        forall|k: int| b <= k < s.len() ==> spec_is_ws(#[trigger] s[k]),
        b > 0 ==> !spec_is_ws(s[b - 1]),
    ensures
        spec_trim_back(s) == s.take(b),
    decreases s.len() - b,
{
    if b == s.len() {
        if s.len() > 0 {
            assert(!spec_is_ws(s.last()));
        }
        assert(s.take(b) =~= s);
    } else {
        assert(spec_is_ws(s.last()));
        let t = s.drop_last();
        assert(forall|k: int| b <= k < t.len() ==> spec_is_ws(#[trigger] t[k]));
        lemma_trim_back_take(t, b);
        assert(t.take(b) =~= s.take(b));
    }
}

fn is_ws(c: char) -> (r: bool)
    ensures
        r == spec_is_ws(c),
{
    c == ' ' || c == '\t' || c == '\r' || c == '\n'
}

/// The index of the first non-whitespace character at or past the
/// start, or the length where there is none.
fn find_non_ws(s: &str, start: usize) -> (r: usize)
    requires
        start <= s@.len(),
    ensures
        start <= r <= s@.len(),
        forall|k: int| start <= k < r ==> spec_is_ws(#[trigger] s@[k]),
        r < s@.len() ==> !spec_is_ws(s@[r as int]),
{
    let n = s.unicode_len();
    let mut i: usize = start;
    while i < n
        invariant
            n == s@.len(),
            start <= i <= n,
            forall|k: int| start <= k < i ==> spec_is_ws(#[trigger] s@[k]),
        decreases n - i,
    {
        if !is_ws(s.get_char(i)) {
            return i;
        }
        i = i + 1;
    }
    n
}

/// The string with leading and trailing whitespace dropped.
#[verifier::loop_isolation(false)]
fn trim_ws(s: &str) -> (r: String)
    ensures
        r@ == spec_trim(s@),
{
    let n = s.unicode_len();
    let a = find_non_ws(s, 0);
    if a == n {
        let empty = String::new();
        proof {
            lemma_trim_front_skip(s@, a as int);
            assert(s@.skip(a as int) =~= Seq::<char>::empty());
            assert(empty@ =~= Seq::<char>::empty());
        }
        return empty;
    }
    let mut b: usize = n;
    while b > a + 1
        invariant
            n == s@.len(),
            a < b <= n,
            a < n,
            !spec_is_ws(s@[a as int]),
            forall|k: int| b <= k < n ==> spec_is_ws(#[trigger] s@[k]),
        decreases b,
    {
        if !is_ws(s.get_char(b - 1)) {
            let r = s.substring_char(a, b).to_owned();
            proof {
                lemma_trim_segment(s@, a as int, b as int);
            }
            return r;
        }
        b = b - 1;
    }
    let r = s.substring_char(a, b).to_owned();
    proof {
        assert(b == a + 1);
        assert(!spec_is_ws(s@[b - 1]));
        lemma_trim_segment(s@, a as int, b as int);
    }
    r
}

/// A trim keeps exactly the stretch between the leading and trailing
/// whitespace.
proof fn lemma_trim_segment(s: Seq<char>, a: int, b: int)
    requires
        0 <= a < b <= s.len(),
        forall|k: int| 0 <= k < a ==> spec_is_ws(#[trigger] s[k]),
        forall|k: int| b <= k < s.len() ==> spec_is_ws(#[trigger] s[k]),
        !spec_is_ws(s[a]),
        !spec_is_ws(s[b - 1]),
    ensures
        spec_trim(s) == s.subrange(a, b),
{
    lemma_trim_front_skip(s, a);
    let t = s.skip(a);
    assert(forall|k: int| b - a <= k < t.len() ==> spec_is_ws(#[trigger] t[k]));
    assert(!spec_is_ws(t[b - a - 1]));
    lemma_trim_back_take(t, b - a);
    assert(t.take(b - a) =~= s.subrange(a, b));
}

/// Builds an IMAP envelope from the plain parts of one fetch: the
/// unique identifier, the flags, and the envelope section's raw
/// header fields, each possibly absent.
///
/// The unique identifier doubles as the stable and the internal
/// identifier; the subject, the sender's parts and the date are
/// decoded as RFC 2047 header text; an absent date is the zero
/// timestamp; the Message-ID is read as UTF-8 and trimmed, and when
/// absent falls back to the decimal timestamp; the sender must carry
/// at least a mailbox and a host, joined with an at sign. The call
/// succeeds exactly when the identifier and envelope section are
/// there, the sender is whole, and every present field decodes and
/// parses.
pub fn envelope_from_imap_parts(
    uid: Option<u32>,
    seq_number: u32,
    flags: Flags,
    has_envelope: bool,
    subject_raw: &Option<Vec<u8>>,
    has_from: bool,
    from_name: &Option<Vec<u8>>,
    from_mailbox: &Option<Vec<u8>>,
    from_host: &Option<Vec<u8>>,
    date_raw: &Option<Vec<u8>>,
    message_id_raw: &Option<Vec<u8>>,
) -> (res: Result<Envelope, EnvelopeParseError>)
    requires
        flags.wf(),
    ensures
        ({
            let subject_ok = match subject_raw {
                Some(b) => rfc2047_decodes(b@),
                None => true,
            };
            let sender_shape_ok = from_mailbox is Some && from_host is Some;
            let sender_decodes = {
                &&& (from_mailbox matches Some(mb) ==> rfc2047_decodes(mb@))
                &&& (from_host matches Some(h) ==> rfc2047_decodes(h@))
                &&& (from_name matches Some(nb) ==> rfc2047_decodes(nb@))
            };
            let date_decodes = match date_raw {
                Some(db) => rfc2047_decodes(db@),
                None => true,
            };
            let date_ok = match date_raw {
                Some(db) => rfc2047_decodes(db@) && date_parses(rfc2047_decoded_of(db@)),
                None => true,
            };
            let mid_ok = match message_id_raw {
                Some(b) => vstd::utf8::valid_utf8(b@),
                None => true,
            };
            &&& (res is Ok <==> uid is Some && has_envelope && subject_ok && has_from
                && sender_shape_ok && sender_decodes && date_ok && mid_ok)
            &&& (match res {
                Ok(e) => {
                    &&& uid matches Some(u) && e@.id == spec_dec_chars(u as nat)
                    &&& e@.internal_id == e@.id
                    &&& e@.flags == flags@
                    &&& e@.subject == (match subject_raw {
                        Some(b) => rfc2047_decoded_of(b@),
                        None => Seq::<char>::empty(),
                    })
                    &&& (from_mailbox matches Some(mb) && from_host matches Some(h) && e@.from.addr
                        == rfc2047_decoded_of(mb@) + seq!['@'] + rfc2047_decoded_of(h@))
                    &&& e@.from.name == (match from_name {
                        Some(nb) => Some(rfc2047_decoded_of(nb@)),
                        None => None::<Seq<char>>,
                    })
                    &&& e@.date == (match date_raw {
                        Some(db) => date_timestamp_of(rfc2047_decoded_of(db@)) as int,
                        None => 0,
                    })
                    &&& e@.message_id == (match message_id_raw {
                        Some(b) => spec_trim(vstd::utf8::decode_utf8(b@)),
                        None => spec_dec_chars_int(e@.date),
                    })
                    &&& e.wf()
                },
                Err(err) => {
                    &&& (uid is None ==> (err matches EnvelopeParseError::GetUid(sn) && sn
                        == seq_number))
                    &&& (uid is Some && !has_envelope ==> err is GetEnvelope)
                    &&& (uid is Some && has_envelope && !subject_ok ==> err is DecodeHeader)
                    &&& (uid is Some && has_envelope && subject_ok && !has_from
                        ==> err is GetSender)
                    &&& (uid is Some && has_envelope && subject_ok && has_from && !sender_shape_ok
                        ==> err is ParseSender)
                    &&& (uid is Some && has_envelope && subject_ok && has_from && sender_shape_ok
                        && !sender_decodes ==> err is DecodeHeader)
                    &&& (uid is Some && has_envelope && subject_ok && has_from && sender_shape_ok
                        && sender_decodes && !date_decodes ==> err is DecodeHeader)
                    &&& (uid is Some && has_envelope && subject_ok && has_from && sender_shape_ok
                        && sender_decodes && date_decodes && !date_ok ==> err is ParseTimestamp)
                    &&& (uid is Some && has_envelope && subject_ok && has_from && sender_shape_ok
                        && sender_decodes && date_ok && !mid_ok ==> err is DecodeHeader)
                },
            })
        }),
{
    let u = match uid {
        Some(u) => u,
        None => {
            return Err(EnvelopeParseError::GetUid(seq_number));
        },
    };
    let id = crate::numstr::u64_to_string(u as u64);
    if !has_envelope {
        return Err(EnvelopeParseError::GetEnvelope(id));
    }

    let subject = match subject_raw {
        Some(b) => match decode_header(b) {
            Some(s) => s,
            None => {
                return Err(EnvelopeParseError::DecodeHeader(id));
            },
        },
        None => String::new(),
    };

    if !has_from {
        return Err(EnvelopeParseError::GetSender(id));
    }
    let (mb, host) = match (from_mailbox, from_host) {
        (Some(mb), Some(h)) => (mb, h),
        _ => {
            return Err(EnvelopeParseError::ParseSender);
        },
    };
    let mb_text = match decode_header(mb) {
        Some(s) => s,
        None => {
            return Err(EnvelopeParseError::DecodeHeader(id));
        },
    };
    let host_text = match decode_header(host) {
        Some(s) => s,
        None => {
            return Err(EnvelopeParseError::DecodeHeader(id));
        },
    };
    let name = match from_name {
        Some(nb) => match decode_header(nb) {
            Some(s) => Some(s),
            None => {
                return Err(EnvelopeParseError::DecodeHeader(id));
            },
        },
        None => None,
    };
    proof {
        reveal_strlit("@");
    }
    let mut addr = mb_text;
    addr.append("@");
    addr.append(host_text.as_str());

    let date: i64 = match date_raw {
        Some(db) => {
            let text = match decode_header(db) {
                Some(s) => s,
                None => {
                    return Err(EnvelopeParseError::DecodeHeader(id));
                },
            };
            match parse_date(text.as_str()) {
                Some(t) => t,
                None => {
                    return Err(EnvelopeParseError::ParseTimestamp(text));
                },
            }
        },
        None => 0,
    };

    let message_id = match message_id_raw {
        Some(b) => match bytes_to_string(b) {
            Some(s) => trim_ws(s.as_str()),
            None => {
                return Err(EnvelopeParseError::DecodeHeader(id.clone()));
            },
        },
        None => i64_to_string(date),
    };

    Ok(
        Envelope {
            id: id.clone(),
            internal_id: id,
            message_id,
            flags,
            subject,
            from: Mailbox { name, addr },
            date,
        },
    )
}

} // verus!
