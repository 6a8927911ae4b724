//! The protocol's standing guarantees, proved once over all inputs.
//!
//! Each proof function here states one guarantee of the reactive core or
//! of the outbound builder over the spec functions that the executable
//! functions are proved against.

use vstd::prelude::*;
use vstd::string::StringSliceAdditionalSpecFns;

use crate::bytes::{
    lemma_find_byte_is_first, lemma_split_on_head, lemma_split_on_no_sep, split_on, without_nuls,
    AMP, EQUALS_SIGN,
};
use crate::error::{SpecError, SpecHandleConnectionError};
use crate::handler::{spec_from_gate, spec_handle_message, spec_handle_request};
use crate::kvmap::pairs_map;
use crate::notification::{iso_datetime, spec_try_parse, SpecNotification};
use crate::parse::{
    channelid_name, name_name, published_name, spec_parse_xml, title_name, updated_name,
    videoid_name,
};
use crate::request::{spec_query_pairs, SpecRequest};
use crate::subscriber::spec_subscription_body;
use crate::text::{ascii_bytes_facts, challenge_key, get_method, ok_reply, post_method, reason_key};
use crate::Mode;

verus! {

/// A verified GET with a challenge and no rejection reason is answered
/// with `200 OK` whose body is exactly the challenge, and nothing is
/// handed to the consumer.
pub proof fn lemma_challenge_echoed(req: SpecRequest, new_only: bool)
    requires
        spec_from_gate(req.headers),
        req.request_line.method == get_method(),
        req.request_line.params matches Some(m) && m.contains_key(challenge_key())
            && !m.contains_key(reason_key()),
    ensures
        req.request_line.params matches Some(m) ==> spec_handle_request(req, new_only) == (
            Some(ok_reply() + m[challenge_key()]),
            Ok::<Option<SpecNotification>, SpecError>(None),
        ),
{
}

/// A GET carrying `hub.reason` yields a rejection error with exactly that
/// reason, and no reply is written.
pub proof fn lemma_rejection_reported(req: SpecRequest, new_only: bool)
    requires
        spec_from_gate(req.headers),
        req.request_line.method == get_method(),
        req.request_line.params matches Some(m) && m.contains_key(reason_key()),
    ensures
        req.request_line.params matches Some(m) ==> spec_handle_request(req, new_only) == (
            None::<Seq<u8>>,
            Err::<Option<SpecNotification>, SpecError>(SpecError::SubscriptionError(m[reason_key()])),
        ),
{
}

/// A decoded notification's textual fields are exactly the scanned tag
/// contents, and its instants are exactly the parsed timestamps.
pub proof fn lemma_notification_fields(xml: Seq<u8>)
    ensures
        ({
            let m = spec_parse_xml(xml);
            (m.contains_key(videoid_name()) && m.contains_key(channelid_name())
                && m.contains_key(title_name()) && m.contains_key(name_name())
                && m.contains_key(published_name()) && m.contains_key(updated_name()))
                ==> (match (iso_datetime(m[published_name()]), iso_datetime(m[updated_name()])) {
                (Some(p), Some(u)) => spec_try_parse(xml) == Ok::<SpecNotification, SpecError>(
                    SpecNotification {
                        video_id: m[videoid_name()],
                        channel_id: m[channelid_name()],
                        video_title: m[title_name()],
                        channel_name: m[name_name()],
                        published: p,
                        updated: u,
                        raw: xml,
                    },
                ),
                _ => true,
            })
        }),
{
}

/// A POST with a body is answered `200 OK`, and with new-only mode
/// disabled every successfully decoded notification reaches the consumer.
pub proof fn lemma_post_delivers(req: SpecRequest)
    requires
        spec_from_gate(req.headers),
        req.request_line.method == post_method(),
        req.body is Some,
    ensures
        req.body matches Some(b) ==> spec_handle_request(req, false) == (
            Some(ok_reply()),
            match spec_try_parse(b) {
                Ok(n) => Ok::<Option<SpecNotification>, SpecError>(Some(n)),
                Err(e) => Err::<Option<SpecNotification>, SpecError>(e),
            },
        ),
{
    reveal_strlit("GET");
    reveal_strlit("POST");
    assert(vstd::string::is_ascii("GET"));
    assert(vstd::string::is_ascii("POST"));
    ascii_bytes_facts("GET");
    ascii_bytes_facts("POST");
    assert(get_method().len() == 3 && post_method().len() == 4);
}

/// Bytes that are not valid UTF-8 once stripped of padding always yield
/// the decoding error — never a reply, a notification, or a panic (the
/// executable pipeline is verified panic-free).
pub proof fn lemma_invalid_utf8_rejected(raw: Seq<u8>, new_only: bool)
    requires
        !vstd::utf8::valid_utf8(without_nuls(raw)),
    ensures
        spec_handle_message(raw, new_only) == (
            None::<Seq<u8>>,
            Err::<Option<SpecNotification>, SpecError>(
                SpecError::HandleConnection(SpecHandleConnectionError::FormatUtf8Error),
            ),
        ),
{
}

/// Facts about the fixed pieces of the subscription body.
proof fn body_literal_facts()
    ensures
        "hub.callback=".spec_bytes().len() == 13,
        forall|i: int| 0 <= i < 13 ==> #[trigger] "hub.callback=".spec_bytes()[i] != AMP,
        forall|i: int| 0 <= i < 12 ==> #[trigger] "hub.callback=".spec_bytes()[i] != EQUALS_SIGN,
        "hub.callback=".spec_bytes()[12] == EQUALS_SIGN,
        "hub.callback=".spec_bytes().take(12) == "hub.callback".spec_bytes(),
        "&hub.mode=".spec_bytes() == seq![AMP] + "hub.mode=".spec_bytes(),
        "hub.mode=".spec_bytes().len() == 9,
        forall|i: int| 0 <= i < 9 ==> #[trigger] "hub.mode=".spec_bytes()[i] != AMP,
        forall|i: int| 0 <= i < 8 ==> #[trigger] "hub.mode=".spec_bytes()[i] != EQUALS_SIGN,
        "hub.mode=".spec_bytes()[8] == EQUALS_SIGN,
        "hub.mode=".spec_bytes().take(8) == "hub.mode".spec_bytes(),
        "&hub.topic=".spec_bytes() == seq![AMP] + "hub.topic=".spec_bytes(),
        "hub.topic=".spec_bytes().len() == 10,
        forall|i: int| 0 <= i < 10 ==> #[trigger] "hub.topic=".spec_bytes()[i] != AMP,
        forall|i: int| 0 <= i < 9 ==> #[trigger] "hub.topic=".spec_bytes()[i] != EQUALS_SIGN,
        "hub.topic=".spec_bytes()[9] == EQUALS_SIGN,
        "hub.topic=".spec_bytes().take(9) == "hub.topic".spec_bytes(),
        "hub.callback".spec_bytes().len() == 12,
        "hub.mode".spec_bytes().len() == 8,
        "hub.topic".spec_bytes().len() == 9,
{
    reveal_strlit("hub.callback=");
    reveal_strlit("hub.callback");
    reveal_strlit("&hub.mode=");
    reveal_strlit("hub.mode=");
    reveal_strlit("hub.mode");
    reveal_strlit("&hub.topic=");
    reveal_strlit("hub.topic=");
    reveal_strlit("hub.topic");
    assert(vstd::string::is_ascii("hub.callback="));
    assert(vstd::string::is_ascii("hub.callback"));
    assert(vstd::string::is_ascii("&hub.mode="));
    assert(vstd::string::is_ascii("hub.mode="));
    assert(vstd::string::is_ascii("hub.mode"));
    assert(vstd::string::is_ascii("&hub.topic="));
    assert(vstd::string::is_ascii("hub.topic="));
    assert(vstd::string::is_ascii("hub.topic"));
    ascii_bytes_facts("hub.callback=");
    ascii_bytes_facts("hub.callback");
    ascii_bytes_facts("&hub.mode=");
    ascii_bytes_facts("hub.mode=");
    ascii_bytes_facts("hub.mode");
    ascii_bytes_facts("&hub.topic=");
    ascii_bytes_facts("hub.topic=");
    ascii_bytes_facts("hub.topic");
    assert("hub.callback=".spec_bytes().take(12) =~= "hub.callback".spec_bytes());
    assert("&hub.mode=".spec_bytes() =~= seq![AMP] + "hub.mode=".spec_bytes());
    assert("hub.mode=".spec_bytes().take(8) =~= "hub.mode".spec_bytes());
    assert("&hub.topic=".spec_bytes() =~= seq![AMP] + "hub.topic=".spec_bytes());
    assert("hub.topic=".spec_bytes().take(9) =~= "hub.topic".spec_bytes());
}

/// The mode text holds no `&`.
proof fn mode_text_facts(mode: Mode)
    ensures
        forall|i: int| 0 <= i < mode.spec_text().len() ==> #[trigger] mode.spec_text()[i] != AMP,
{
    reveal_strlit("subscribe");
    reveal_strlit("unsubscribe");
    assert(vstd::string::is_ascii("subscribe"));
    assert(vstd::string::is_ascii("unsubscribe"));
    ascii_bytes_facts("subscribe");
    ascii_bytes_facts("unsubscribe");
}

/// Round trip: a built subscription body, parsed back as a query string,
/// yields exactly the callback, mode and topic it was built from, provided
/// neither URL holds a `&`.
pub proof fn lemma_subscription_round_trip(callback: Seq<u8>, mode: Mode, topic: Seq<u8>)
    requires
        forall|i: int| 0 <= i < callback.len() ==> callback[i] != AMP,
        forall|i: int| 0 <= i < topic.len() ==> topic[i] != AMP,
    ensures
        ({
            let parsed = spec_query_pairs(split_on(spec_subscription_body(callback, mode, topic), AMP));
            parsed matches Some(ps) && {
                let m = pairs_map(ps);
                &&& m.contains_key("hub.callback".spec_bytes())
                &&& m["hub.callback".spec_bytes()] == callback
                &&& m.contains_key("hub.mode".spec_bytes())
                &&& m["hub.mode".spec_bytes()] == mode.spec_text()
                &&& m.contains_key("hub.topic".spec_bytes())
                &&& m["hub.topic".spec_bytes()] == topic
            }
        }),
{
    body_literal_facts();
    mode_text_facts(mode);
    let body = spec_subscription_body(callback, mode, topic);
    let p1 = "hub.callback=".spec_bytes() + callback;
    let p2 = "hub.mode=".spec_bytes() + mode.spec_text();
    let p3 = "hub.topic=".spec_bytes() + topic;
    let k1 = "hub.callback".spec_bytes();
    let k2 = "hub.mode".spec_bytes();
    let k3 = "hub.topic".spec_bytes();

    // The body splits on `&` into exactly the three pieces.
    assert(body =~= p1 + seq![AMP] + (p2 + seq![AMP] + p3));
    assert(forall|i: int| 0 <= i < p1.len() ==> p1[i] != AMP);
    assert(forall|i: int| 0 <= i < p2.len() ==> p2[i] != AMP);
    assert(forall|i: int| 0 <= i < p3.len() ==> p3[i] != AMP);
    lemma_split_on_head(p1, p2 + seq![AMP] + p3, AMP);
    assert(p2 + seq![AMP] + p3 =~= p2 + seq![AMP] + p3);
    lemma_split_on_head(p2, p3, AMP);
    lemma_split_on_no_sep(p3, AMP);
    let pieces = split_on(body, AMP);
    assert(pieces =~~= seq![p1, p2, p3]);

    // Each piece splits on its first `=` into the fixed key and the value
    // it was built from.
    assert(p1[12] == EQUALS_SIGN);
    assert(forall|i: int| 0 <= i < 12 ==> p1[i] != EQUALS_SIGN);
    lemma_find_byte_is_first(p1, EQUALS_SIGN, 12);
    assert(p1.take(12) =~= k1);
    assert(p1.skip(13) =~= callback);
    assert(p2[8] == EQUALS_SIGN);
    assert(forall|i: int| 0 <= i < 8 ==> p2[i] != EQUALS_SIGN);
    lemma_find_byte_is_first(p2, EQUALS_SIGN, 8);
    assert(p2.take(8) =~= k2);
    assert(p2.skip(9) =~= mode.spec_text());
    assert(p3[9] == EQUALS_SIGN);
    assert(forall|i: int| 0 <= i < 9 ==> p3[i] != EQUALS_SIGN);
    lemma_find_byte_is_first(p3, EQUALS_SIGN, 9);
    assert(p3.take(9) =~= k3);
    assert(p3.skip(10) =~= topic);

    // Fold the pieces into the pair list.
    let tail1 = seq![p2, p3];
    let tail2 = seq![p3];
    assert(pieces.drop_first() =~~= tail1);
    assert(tail1.drop_first() =~~= tail2);
    assert(tail2.drop_first() =~~= Seq::<Seq<u8>>::empty());
    assert(spec_query_pairs(Seq::<Seq<u8>>::empty()) == Some(Seq::<(Seq<u8>, Seq<u8>)>::empty()));
    assert(spec_query_pairs(tail2) matches Some(psx) && psx =~~= seq![(k3, topic)]);
    let ps3 = seq![(k3, topic)];
    assert(spec_query_pairs(tail2) == Some(ps3)) by {
        assert(seq![(tail2[0].take(9), tail2[0].skip(10))] + Seq::<(Seq<u8>, Seq<u8>)>::empty()
            =~~= ps3);
    }
    let ps2 = seq![(k2, mode.spec_text()), (k3, topic)];
    assert(spec_query_pairs(tail1) == Some(ps2)) by {
        assert(seq![(tail1[0].take(8), tail1[0].skip(9))] + ps3 =~~= ps2);
    }
    let ps1 = seq![(k1, callback), (k2, mode.spec_text()), (k3, topic)];
    assert(spec_query_pairs(pieces) == Some(ps1)) by {
        assert(seq![(pieces[0].take(12), pieces[0].skip(13))] + ps2 =~~= ps1);
    }

    // The pair list folds into a map with the three keys.
    assert(k1.len() == 12 && k2.len() == 8 && k3.len() == 9);
    assert(k1 != k2 && k1 != k3 && k2 != k3);
    let ps_a = seq![(k1, callback)];
    let ps_b = seq![(k1, callback), (k2, mode.spec_text())];
    let nothing = Seq::<(Seq<u8>, Seq<u8>)>::empty();
    assert(pairs_map(nothing) =~~= Map::<Seq<u8>, Seq<u8>>::empty());
    assert(ps_a.drop_last() =~~= nothing);
    assert(pairs_map(ps_a) == pairs_map(nothing).insert(k1, callback));
    assert(ps_b.drop_last() =~~= ps_a);
    assert(pairs_map(ps_b) == pairs_map(ps_a).insert(k2, mode.spec_text()));
    assert(ps1.drop_last() =~~= ps_b);
    assert(pairs_map(ps1) == pairs_map(ps_b).insert(k3, topic));
}

} // verus!
