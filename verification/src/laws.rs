//! The library's laws: proved statements that tie the decoder and the
//! encoder together.
//!
//! Each record codec round-trips: decoding the attribute list a record
//! encodes to yields the record back. Default suppression is coherent:
//! an attribute explicitly set to its implicit default decodes exactly
//! as its absence does. The font-style enum is open and never fails;
//! every other enum rejects codes outside its set.

use vstd::prelude::*;
use crate::model::{ModeHint, Paragraph, Pen, WindowPosition, WindowStyle};
use crate::model::DecodeError;
use crate::decode::{
    dec_font_style_field, dec_justify_field, dec_req_u64, dec_u32_field, find_attr_p,
    pen_of_attrs, wp_of_attrs, ws_of_attrs,
};
use crate::encode::{paragraph_attrs, pen_attrs, span_attrs, wp_attrs, ws_attrs};
use crate::token::{dec_token, dec_token_signed, lemma_dec_token_value, lemma_i32_token_round_trip};

verus! {

broadcast use vstd::seq::group_seq_axioms;

/// Lookup distributes over concatenation: the left part is searched
/// first.
proof fn lemma_find_attr_concat(
    a: Seq<(Seq<char>, Seq<char>)>,
    b: Seq<(Seq<char>, Seq<char>)>,
    n: Seq<char>,
)
    ensures
        find_attr_p(a + b, n) == (match find_attr_p(a, n) {
            Some(v) => Some(v),
            None => find_attr_p(b, n),
        }),
    decreases a.len(),
{
    if a.len() == 0 {
        assert(a + b =~= b);
    } else {
        assert((a + b).first() == a.first());
        assert((a + b).drop_first() =~= a.drop_first() + b);
        lemma_find_attr_concat(a.drop_first(), b, n);
    }
}

/// Lookup after appending one entry: the old entries win; the new one
/// is found only where nothing else matched.
proof fn lemma_find_attr_push(
    a: Seq<(Seq<char>, Seq<char>)>,
    x: (Seq<char>, Seq<char>),
    n: Seq<char>,
)
    ensures
        find_attr_p(a.push(x), n) == (match find_attr_p(a, n) {
            Some(v) => Some(v),
            None => if x.0 == n {
                Some(x.1)
            } else {
                None
            },
        }),
    decreases a.len(),
{
    if a.len() == 0 {
        assert(a.push(x).first() == x);
        assert(a.push(x).drop_first() =~= Seq::<(Seq<char>, Seq<char>)>::empty());
    } else {
        assert(a.push(x).first() == a.first());
        assert(a.push(x).drop_first() =~= a.drop_first().push(x));
        lemma_find_attr_push(a.drop_first(), x, n);
    }
}

/// The length and characters of every attribute-name literal of the
/// dialect, so that lookups can tell the names apart.
proof fn lemma_attr_name_chars()
    ensures
        "id"@.len() == 2,
        "id"@[0] == 'i',
        "id"@[1] == 'd',
        "b"@.len() == 1,
        "b"@[0] == 'b',
        "i"@.len() == 1,
        "i"@[0] == 'i',
        "u"@.len() == 1,
        "u"@[0] == 'u',
        "fc"@.len() == 2,
        "fc"@[0] == 'f',
        "fc"@[1] == 'c',
        "fo"@.len() == 2,
        "fo"@[0] == 'f',
        "fo"@[1] == 'o',
        "bc"@.len() == 2,
        "bc"@[0] == 'b',
        "bc"@[1] == 'c',
        "bo"@.len() == 2,
        "bo"@[0] == 'b',
        "bo"@[1] == 'o',
        "ec"@.len() == 2,
        "ec"@[0] == 'e',
        "ec"@[1] == 'c',
        "et"@.len() == 2,
        "et"@[0] == 'e',
        "et"@[1] == 't',
        "sz"@.len() == 2,
        "sz"@[0] == 's',
        "sz"@[1] == 'z',
        "fs"@.len() == 2,
        "fs"@[0] == 'f',
        "fs"@[1] == 's',
        "rb"@.len() == 2,
        "rb"@[0] == 'r',
        "rb"@[1] == 'b',
        "hg"@.len() == 2,
        "hg"@[0] == 'h',
        "hg"@[1] == 'g',
        "of"@.len() == 2,
        "of"@[0] == 'o',
        "of"@[1] == 'f',
        "te"@.len() == 2,
        "te"@[0] == 't',
        "te"@[1] == 'e',
        "ap"@.len() == 2,
        "ap"@[0] == 'a',
        "ap"@[1] == 'p',
        "ah"@.len() == 2,
        "ah"@[0] == 'a',
        "ah"@[1] == 'h',
        "av"@.len() == 2,
        "av"@[0] == 'a',
        "av"@[1] == 'v',
        "rc"@.len() == 2,
        "rc"@[0] == 'r',
        "rc"@[1] == 'c',
        "cc"@.len() == 2,
        "cc"@[0] == 'c',
        "cc"@[1] == 'c',
        "ju"@.len() == 2,
        "ju"@[0] == 'j',
        "ju"@[1] == 'u',
        "pd"@.len() == 2,
        "pd"@[0] == 'p',
        "pd"@[1] == 'd',
        "sd"@.len() == 2,
        "sd"@[0] == 's',
        "sd"@[1] == 'd',
        "mh"@.len() == 2,
        "mh"@[0] == 'm',
        "mh"@[1] == 'h',
        "wfc"@.len() == 3,
        "wfc"@[0] == 'w',
        "wfc"@[1] == 'f',
        "wfc"@[2] == 'c',
        "wfo"@.len() == 3,
        "wfo"@[0] == 'w',
        "wfo"@[1] == 'f',
        "wfo"@[2] == 'o',
        "t"@.len() == 1,
        "t"@[0] == 't',
        "d"@.len() == 1,
        "d"@[0] == 'd',
        "wp"@.len() == 2,
        "wp"@[0] == 'w',
        "wp"@[1] == 'p',
        "ws"@.len() == 2,
        "ws"@[0] == 'w',
        "ws"@[1] == 's',
        "p"@.len() == 1,
        "p"@[0] == 'p',
{
    reveal_strlit("id");
    reveal_strlit("b");
    reveal_strlit("i");
    reveal_strlit("u");
    reveal_strlit("fc");
    reveal_strlit("fo");
    reveal_strlit("bc");
    reveal_strlit("bo");
    reveal_strlit("ec");
    reveal_strlit("et");
    reveal_strlit("sz");
    reveal_strlit("fs");
    reveal_strlit("rb");
    reveal_strlit("hg");
    reveal_strlit("of");
    reveal_strlit("te");
    reveal_strlit("ap");
    reveal_strlit("ah");
    reveal_strlit("av");
    reveal_strlit("rc");
    reveal_strlit("cc");
    reveal_strlit("ju");
    reveal_strlit("pd");
    reveal_strlit("sd");
    reveal_strlit("mh");
    reveal_strlit("wfc");
    reveal_strlit("wfo");
    reveal_strlit("t");
    reveal_strlit("d");
    reveal_strlit("wp");
    reveal_strlit("ws");
    reveal_strlit("p");
}

/// Lookup in a list of at most one entry.
proof fn lemma_find_attr_small(s: Seq<(Seq<char>, Seq<char>)>, n: Seq<char>)
    requires
        s.len() <= 1,
    ensures
        find_attr_p(s, n) == if s.len() == 1 && s[0].0 == n {
            Some(s[0].1)
        } else {
            None
        },
{
    if s.len() == 1 {
        assert(s.first() == s[0]);
        assert(s.drop_first() =~= Seq::<(Seq<char>, Seq<char>)>::empty());
        assert(find_attr_p(s.drop_first(), n) is None);
        if s[0].0 == n {
            assert(find_attr_p(s, n) == Some(s[0].1));
        } else {
            assert(find_attr_p(s, n) == find_attr_p(s.drop_first(), n));
        }
    } else {
        assert(find_attr_p(s, n) is None);
    }
}

/// A window-position record survives the attribute codec round trip:
/// decoding the attribute list it encodes to yields the record back,
/// for every record.
pub proof fn lemma_wp_round_trip(w: WindowPosition)
    ensures
        wp_of_attrs(wp_attrs(w)) == Ok::<WindowPosition, DecodeError>(w),
{
    reveal(wp_of_attrs);
    lemma_attr_name_chars();
    let a = wp_attrs(w);
    lemma_dec_token_value(w.id as int);
    if let Some(v) = w.anchor_point {
        lemma_dec_token_value(crate::codec::anchor_point_code(v) as int);
        crate::codec::lemma_anchor_point_round_trip(v);
    }
    if let Some(v) = w.horizontal_offset {
        lemma_i32_token_round_trip(v);
    }
    if let Some(v) = w.vertical_offset {
        lemma_i32_token_round_trip(v);
    }
    if let Some(v) = w.rows_total {
        lemma_dec_token_value(v as int);
    }
    if let Some(v) = w.columns_total {
        lemma_dec_token_value(v as int);
    }
    let s_id = seq![("id"@, dec_token(w.id as int))];
    let s_ap = crate::encode::opt_attr_num(
        "ap"@,
        match w.anchor_point {
            Some(v) => Some(crate::codec::anchor_point_code(v) as int),
            None => None,
        },
    );
    let s_ah = crate::encode::opt_attr_signed(
        "ah"@,
        match w.horizontal_offset {
            Some(x) => Some(x as int),
            None => None,
        },
    );
    let s_av = crate::encode::opt_attr_signed(
        "av"@,
        match w.vertical_offset {
            Some(x) => Some(x as int),
            None => None,
        },
    );
    let s_rc = crate::encode::opt_attr_num(
        "rc"@,
        match w.rows_total {
            Some(x) => Some(x as int),
            None => None,
        },
    );
    let s_cc = crate::encode::opt_attr_num(
        "cc"@,
        match w.columns_total {
            Some(x) => Some(x as int),
            None => None,
        },
    );
    assert(a == s_id + s_ap + s_ah + s_av + s_rc + s_cc);
    assert(find_attr_p(a, "id"@) == (Some(dec_token(w.id as int)))) by {
        lemma_attr_name_chars();
        lemma_find_attr_concat(s_id + s_ap + s_ah + s_av + s_rc, s_cc, "id"@);
        lemma_find_attr_concat(s_id + s_ap + s_ah + s_av, s_rc, "id"@);
        lemma_find_attr_concat(s_id + s_ap + s_ah, s_av, "id"@);
        lemma_find_attr_concat(s_id + s_ap, s_ah, "id"@);
        lemma_find_attr_concat(s_id, s_ap, "id"@);
        lemma_find_attr_small(s_id, "id"@);
        lemma_find_attr_small(s_ap, "id"@);
        lemma_find_attr_small(s_ah, "id"@);
        lemma_find_attr_small(s_av, "id"@);
        lemma_find_attr_small(s_rc, "id"@);
        lemma_find_attr_small(s_cc, "id"@);
    }
    assert(find_attr_p(a, "ap"@) == (match w.anchor_point { Some(v) => Some(dec_token(crate::codec::anchor_point_code(v) as int)), None => None })) by {
        lemma_attr_name_chars();
        lemma_find_attr_concat(s_id + s_ap + s_ah + s_av + s_rc, s_cc, "ap"@);
        lemma_find_attr_concat(s_id + s_ap + s_ah + s_av, s_rc, "ap"@);
        lemma_find_attr_concat(s_id + s_ap + s_ah, s_av, "ap"@);
        lemma_find_attr_concat(s_id + s_ap, s_ah, "ap"@);
        lemma_find_attr_concat(s_id, s_ap, "ap"@);
        lemma_find_attr_small(s_id, "ap"@);
        lemma_find_attr_small(s_ap, "ap"@);
        lemma_find_attr_small(s_ah, "ap"@);
        lemma_find_attr_small(s_av, "ap"@);
        lemma_find_attr_small(s_rc, "ap"@);
        lemma_find_attr_small(s_cc, "ap"@);
    }
    assert(find_attr_p(a, "ah"@) == (match w.horizontal_offset { Some(x) => Some(dec_token_signed(x as int)), None => None })) by {
        lemma_attr_name_chars();
        lemma_find_attr_concat(s_id + s_ap + s_ah + s_av + s_rc, s_cc, "ah"@);
        lemma_find_attr_concat(s_id + s_ap + s_ah + s_av, s_rc, "ah"@);
        lemma_find_attr_concat(s_id + s_ap + s_ah, s_av, "ah"@);
        lemma_find_attr_concat(s_id + s_ap, s_ah, "ah"@);
        lemma_find_attr_concat(s_id, s_ap, "ah"@);
        lemma_find_attr_small(s_id, "ah"@);
        lemma_find_attr_small(s_ap, "ah"@);
        lemma_find_attr_small(s_ah, "ah"@);
        lemma_find_attr_small(s_av, "ah"@);
        lemma_find_attr_small(s_rc, "ah"@);
        lemma_find_attr_small(s_cc, "ah"@);
    }
    assert(find_attr_p(a, "av"@) == (match w.vertical_offset { Some(x) => Some(dec_token_signed(x as int)), None => None })) by {
        lemma_attr_name_chars();
        lemma_find_attr_concat(s_id + s_ap + s_ah + s_av + s_rc, s_cc, "av"@);
        lemma_find_attr_concat(s_id + s_ap + s_ah + s_av, s_rc, "av"@);
        lemma_find_attr_concat(s_id + s_ap + s_ah, s_av, "av"@);
        lemma_find_attr_concat(s_id + s_ap, s_ah, "av"@);
        lemma_find_attr_concat(s_id, s_ap, "av"@);
        lemma_find_attr_small(s_id, "av"@);
        lemma_find_attr_small(s_ap, "av"@);
        lemma_find_attr_small(s_ah, "av"@);
        lemma_find_attr_small(s_av, "av"@);
        lemma_find_attr_small(s_rc, "av"@);
        lemma_find_attr_small(s_cc, "av"@);
    }
    assert(find_attr_p(a, "rc"@) == (match w.rows_total { Some(x) => Some(dec_token(x as int)), None => None })) by {
        lemma_attr_name_chars();
        lemma_find_attr_concat(s_id + s_ap + s_ah + s_av + s_rc, s_cc, "rc"@);
        lemma_find_attr_concat(s_id + s_ap + s_ah + s_av, s_rc, "rc"@);
        lemma_find_attr_concat(s_id + s_ap + s_ah, s_av, "rc"@);
        lemma_find_attr_concat(s_id + s_ap, s_ah, "rc"@);
        lemma_find_attr_concat(s_id, s_ap, "rc"@);
        lemma_find_attr_small(s_id, "rc"@);
        lemma_find_attr_small(s_ap, "rc"@);
        lemma_find_attr_small(s_ah, "rc"@);
        lemma_find_attr_small(s_av, "rc"@);
        lemma_find_attr_small(s_rc, "rc"@);
        lemma_find_attr_small(s_cc, "rc"@);
    }
    assert(find_attr_p(a, "cc"@) == (match w.columns_total { Some(x) => Some(dec_token(x as int)), None => None })) by {
        lemma_attr_name_chars();
        lemma_find_attr_concat(s_id + s_ap + s_ah + s_av + s_rc, s_cc, "cc"@);
        lemma_find_attr_concat(s_id + s_ap + s_ah + s_av, s_rc, "cc"@);
        lemma_find_attr_concat(s_id + s_ap + s_ah, s_av, "cc"@);
        lemma_find_attr_concat(s_id + s_ap, s_ah, "cc"@);
        lemma_find_attr_concat(s_id, s_ap, "cc"@);
        lemma_find_attr_small(s_id, "cc"@);
        lemma_find_attr_small(s_ap, "cc"@);
        lemma_find_attr_small(s_ah, "cc"@);
        lemma_find_attr_small(s_av, "cc"@);
        lemma_find_attr_small(s_rc, "cc"@);
        lemma_find_attr_small(s_cc, "cc"@);
    }
}

/// A window-style record survives the attribute codec round trip, as
/// long as its fill opacity is not the suppressed default 255 — that
/// value encodes as absence and reads back as `None`.
#[verifier::rlimit(100)]
pub proof fn lemma_ws_round_trip(w: WindowStyle)
    requires
        w.fill_opacity != Some(255u8),
    ensures
        ws_of_attrs(ws_attrs(w)) == Ok::<crate::model::WindowStyleV, DecodeError>(w.dview()),
{
    reveal(ws_of_attrs);
    lemma_attr_name_chars();
    let a = ws_attrs(w);
    lemma_dec_token_value(w.id as int);
    if let Some(v) = w.justify {
        lemma_dec_token_value(crate::codec::justify_code(v) as int);
        crate::codec::lemma_justify_round_trip(v);
    }
    if let Some(v) = w.pitch_direction {
        lemma_dec_token_value(crate::codec::rotation_code(v) as int);
        crate::codec::lemma_rotation_round_trip(v);
    }
    if let Some(v) = w.skew_direction {
        lemma_dec_token_value(crate::codec::rotation_code(v) as int);
        crate::codec::lemma_rotation_round_trip(v);
    }
    lemma_dec_token_value(crate::codec::mode_hint_code(w.mode_hint) as int);
    crate::codec::lemma_mode_hint_round_trip(w.mode_hint);
    if let Some(v) = w.fill_opacity {
        lemma_dec_token_value(v as int);
    }
    lemma_ws_finds(w);
    assert(crate::decode::dec_req_u32(a, "id"@) == Ok::<u32, DecodeError>(w.id));
    assert(crate::decode::dec_justify_field(a, "ju"@) == Ok::<Option<crate::model::Justify>, DecodeError>(w.justify));
    assert(crate::decode::dec_rotation_field(a, "pd"@) == Ok::<Option<crate::model::Rotation>, DecodeError>(w.pitch_direction));
    assert(crate::decode::dec_rotation_field(a, "sd"@) == Ok::<Option<crate::model::Rotation>, DecodeError>(w.skew_direction));
    assert(crate::decode::dec_mode_hint_field(a, "mh"@) == Ok::<ModeHint, DecodeError>(w.mode_hint));
    assert(crate::decode::dec_opacity_u8_field(a, "wfo"@) == Ok::<Option<u8>, DecodeError>(w.fill_opacity));
}

/// The lookups over a window-style record's encoded attributes.
#[verifier::rlimit(100)]
proof fn lemma_ws_finds(w: WindowStyle)
    ensures
        find_attr_p(ws_attrs(w), "id"@) == Some(dec_token(w.id as int)),
        find_attr_p(ws_attrs(w), "ju"@) == (match w.justify { Some(v) => Some(dec_token(crate::codec::justify_code(v) as int)), None => None }),
        find_attr_p(ws_attrs(w), "pd"@) == (match w.pitch_direction { Some(v) => Some(dec_token(crate::codec::rotation_code(v) as int)), None => None }),
        find_attr_p(ws_attrs(w), "sd"@) == (match w.skew_direction { Some(v) => Some(dec_token(crate::codec::rotation_code(v) as int)), None => None }),
        find_attr_p(ws_attrs(w), "mh"@) == (if w.mode_hint == ModeHint::NoHint { None } else { Some(dec_token(crate::codec::mode_hint_code(w.mode_hint) as int)) }),
        find_attr_p(ws_attrs(w), "wfc"@) == (match w.fill_color { Some(c) => Some(c@), None => None }),
        find_attr_p(ws_attrs(w), "wfo"@) == (match w.fill_opacity { Some(x) => if x == 255 { None } else { Some(dec_token(x as int)) }, None => None }),
{
    let a = ws_attrs(w);
    let s_id = seq![("id"@, dec_token(w.id as int))];
    let s_ju = crate::encode::opt_attr_num(
        "ju"@,
        match w.justify {
            Some(v) => Some(crate::codec::justify_code(v) as int),
            None => None,
        },
    );
    let s_pd = crate::encode::opt_attr_num(
        "pd"@,
        match w.pitch_direction {
            Some(v) => Some(crate::codec::rotation_code(v) as int),
            None => None,
        },
    );
    let s_sd = crate::encode::opt_attr_num(
        "sd"@,
        match w.skew_direction {
            Some(v) => Some(crate::codec::rotation_code(v) as int),
            None => None,
        },
    );
    let s_mh: Seq<(Seq<char>, Seq<char>)> = if w.mode_hint == ModeHint::NoHint {
        Seq::empty()
    } else {
        seq![("mh"@, dec_token(crate::codec::mode_hint_code(w.mode_hint) as int))]
    };
    let s_wfc: Seq<(Seq<char>, Seq<char>)> = match w.fill_color {
        Some(c) => seq![("wfc"@, c@)],
        None => Seq::empty(),
    };
    let s_wfo = crate::encode::opt_attr_opacity(
        "wfo"@,
        match w.fill_opacity {
            Some(x) => Some(x as int),
            None => None,
        },
    );
    assert(a == s_id + s_ju + s_pd + s_sd + s_mh + s_wfc + s_wfo);
    assert(find_attr_p(a, "id"@) == (Some(dec_token(w.id as int)))) by {
        lemma_attr_name_chars();
        lemma_find_attr_concat(s_id + s_ju + s_pd + s_sd + s_mh + s_wfc, s_wfo, "id"@);
        lemma_find_attr_concat(s_id + s_ju + s_pd + s_sd + s_mh, s_wfc, "id"@);
        lemma_find_attr_concat(s_id + s_ju + s_pd + s_sd, s_mh, "id"@);
        lemma_find_attr_concat(s_id + s_ju + s_pd, s_sd, "id"@);
        lemma_find_attr_concat(s_id + s_ju, s_pd, "id"@);
        lemma_find_attr_concat(s_id, s_ju, "id"@);
        lemma_find_attr_small(s_id, "id"@);
        lemma_find_attr_small(s_ju, "id"@);
        lemma_find_attr_small(s_pd, "id"@);
        lemma_find_attr_small(s_sd, "id"@);
        lemma_find_attr_small(s_mh, "id"@);
        lemma_find_attr_small(s_wfc, "id"@);
        lemma_find_attr_small(s_wfo, "id"@);
    }
    assert(find_attr_p(a, "ju"@) == (match w.justify { Some(v) => Some(dec_token(crate::codec::justify_code(v) as int)), None => None })) by {
        lemma_attr_name_chars();
        lemma_find_attr_concat(s_id + s_ju + s_pd + s_sd + s_mh + s_wfc, s_wfo, "ju"@);
        lemma_find_attr_concat(s_id + s_ju + s_pd + s_sd + s_mh, s_wfc, "ju"@);
        lemma_find_attr_concat(s_id + s_ju + s_pd + s_sd, s_mh, "ju"@);
        lemma_find_attr_concat(s_id + s_ju + s_pd, s_sd, "ju"@);
        lemma_find_attr_concat(s_id + s_ju, s_pd, "ju"@);
        lemma_find_attr_concat(s_id, s_ju, "ju"@);
        lemma_find_attr_small(s_id, "ju"@);
        lemma_find_attr_small(s_ju, "ju"@);
        lemma_find_attr_small(s_pd, "ju"@);
        lemma_find_attr_small(s_sd, "ju"@);
        lemma_find_attr_small(s_mh, "ju"@);
        lemma_find_attr_small(s_wfc, "ju"@);
        lemma_find_attr_small(s_wfo, "ju"@);
    }
    assert(find_attr_p(a, "pd"@) == (match w.pitch_direction { Some(v) => Some(dec_token(crate::codec::rotation_code(v) as int)), None => None })) by {
        lemma_attr_name_chars();
        lemma_find_attr_concat(s_id + s_ju + s_pd + s_sd + s_mh + s_wfc, s_wfo, "pd"@);
        lemma_find_attr_concat(s_id + s_ju + s_pd + s_sd + s_mh, s_wfc, "pd"@);
        lemma_find_attr_concat(s_id + s_ju + s_pd + s_sd, s_mh, "pd"@);
        lemma_find_attr_concat(s_id + s_ju + s_pd, s_sd, "pd"@);
        lemma_find_attr_concat(s_id + s_ju, s_pd, "pd"@);
        lemma_find_attr_concat(s_id, s_ju, "pd"@);
        lemma_find_attr_small(s_id, "pd"@);
        lemma_find_attr_small(s_ju, "pd"@);
        lemma_find_attr_small(s_pd, "pd"@);
        lemma_find_attr_small(s_sd, "pd"@);
        lemma_find_attr_small(s_mh, "pd"@);
        lemma_find_attr_small(s_wfc, "pd"@);
        lemma_find_attr_small(s_wfo, "pd"@);
    }
    assert(find_attr_p(a, "sd"@) == (match w.skew_direction { Some(v) => Some(dec_token(crate::codec::rotation_code(v) as int)), None => None })) by {
        lemma_attr_name_chars();
        lemma_find_attr_concat(s_id + s_ju + s_pd + s_sd + s_mh + s_wfc, s_wfo, "sd"@);
        lemma_find_attr_concat(s_id + s_ju + s_pd + s_sd + s_mh, s_wfc, "sd"@);
        lemma_find_attr_concat(s_id + s_ju + s_pd + s_sd, s_mh, "sd"@);
        lemma_find_attr_concat(s_id + s_ju + s_pd, s_sd, "sd"@);
        lemma_find_attr_concat(s_id + s_ju, s_pd, "sd"@);
        lemma_find_attr_concat(s_id, s_ju, "sd"@);
        lemma_find_attr_small(s_id, "sd"@);
        lemma_find_attr_small(s_ju, "sd"@);
        lemma_find_attr_small(s_pd, "sd"@);
        lemma_find_attr_small(s_sd, "sd"@);
        lemma_find_attr_small(s_mh, "sd"@);
        lemma_find_attr_small(s_wfc, "sd"@);
        lemma_find_attr_small(s_wfo, "sd"@);
    }
    assert(find_attr_p(a, "mh"@) == (if w.mode_hint == ModeHint::NoHint { None } else { Some(dec_token(crate::codec::mode_hint_code(w.mode_hint) as int)) })) by {
        lemma_attr_name_chars();
        lemma_find_attr_concat(s_id + s_ju + s_pd + s_sd + s_mh + s_wfc, s_wfo, "mh"@);
        lemma_find_attr_concat(s_id + s_ju + s_pd + s_sd + s_mh, s_wfc, "mh"@);
        lemma_find_attr_concat(s_id + s_ju + s_pd + s_sd, s_mh, "mh"@);
        lemma_find_attr_concat(s_id + s_ju + s_pd, s_sd, "mh"@);
        lemma_find_attr_concat(s_id + s_ju, s_pd, "mh"@);
        lemma_find_attr_concat(s_id, s_ju, "mh"@);
        lemma_find_attr_small(s_id, "mh"@);
        lemma_find_attr_small(s_ju, "mh"@);
        lemma_find_attr_small(s_pd, "mh"@);
        lemma_find_attr_small(s_sd, "mh"@);
        lemma_find_attr_small(s_mh, "mh"@);
        lemma_find_attr_small(s_wfc, "mh"@);
        lemma_find_attr_small(s_wfo, "mh"@);
    }
    assert(find_attr_p(a, "wfc"@) == (match w.fill_color { Some(c) => Some(c@), None => None })) by {
        lemma_attr_name_chars();
        lemma_find_attr_concat(s_id + s_ju + s_pd + s_sd + s_mh + s_wfc, s_wfo, "wfc"@);
        lemma_find_attr_concat(s_id + s_ju + s_pd + s_sd + s_mh, s_wfc, "wfc"@);
        lemma_find_attr_concat(s_id + s_ju + s_pd + s_sd, s_mh, "wfc"@);
        lemma_find_attr_concat(s_id + s_ju + s_pd, s_sd, "wfc"@);
        lemma_find_attr_concat(s_id + s_ju, s_pd, "wfc"@);
        lemma_find_attr_concat(s_id, s_ju, "wfc"@);
        lemma_find_attr_small(s_id, "wfc"@);
        lemma_find_attr_small(s_ju, "wfc"@);
        lemma_find_attr_small(s_pd, "wfc"@);
        lemma_find_attr_small(s_sd, "wfc"@);
        lemma_find_attr_small(s_mh, "wfc"@);
        lemma_find_attr_small(s_wfc, "wfc"@);
        lemma_find_attr_small(s_wfo, "wfc"@);
    }
    assert(find_attr_p(a, "wfo"@) == (match w.fill_opacity { Some(x) => if x == 255 { None } else { Some(dec_token(x as int)) }, None => None })) by {
        lemma_attr_name_chars();
        lemma_find_attr_concat(s_id + s_ju + s_pd + s_sd + s_mh + s_wfc, s_wfo, "wfo"@);
        lemma_find_attr_concat(s_id + s_ju + s_pd + s_sd + s_mh, s_wfc, "wfo"@);
        lemma_find_attr_concat(s_id + s_ju + s_pd + s_sd, s_mh, "wfo"@);
        lemma_find_attr_concat(s_id + s_ju + s_pd, s_sd, "wfo"@);
        lemma_find_attr_concat(s_id + s_ju, s_pd, "wfo"@);
        lemma_find_attr_concat(s_id, s_ju, "wfo"@);
        lemma_find_attr_small(s_id, "wfo"@);
        lemma_find_attr_small(s_ju, "wfo"@);
        lemma_find_attr_small(s_pd, "wfo"@);
        lemma_find_attr_small(s_sd, "wfo"@);
        lemma_find_attr_small(s_mh, "wfo"@);
        lemma_find_attr_small(s_wfc, "wfo"@);
        lemma_find_attr_small(s_wfo, "wfo"@);
    }


}

/// The timing and reference attributes of a paragraph, and the pen
/// reference of a span, survive their codec round trips.
pub proof fn lemma_paragraph_attrs_round_trip(p: Paragraph, pen: Option<u32>)
    ensures
        dec_req_u64(paragraph_attrs(p), "t"@) == Ok::<u64, DecodeError>(p.timestamp),
        dec_req_u64(paragraph_attrs(p), "d"@) == Ok::<u64, DecodeError>(p.duration),
        dec_u32_field(paragraph_attrs(p), "wp"@) == Ok::<Option<u32>, DecodeError>(
            p.window_position,
        ),
        dec_u32_field(paragraph_attrs(p), "ws"@) == Ok::<Option<u32>, DecodeError>(
            p.window_style,
        ),
        dec_u32_field(span_attrs(pen), "p"@) == Ok::<Option<u32>, DecodeError>(pen),
{
    lemma_attr_name_chars();
    lemma_dec_token_value(p.timestamp as int);
    lemma_dec_token_value(p.duration as int);
    if let Some(v) = p.window_position {
        lemma_dec_token_value(v as int);
    }
    if let Some(v) = p.window_style {
        lemma_dec_token_value(v as int);
    }
    if let Some(v) = pen {
        lemma_dec_token_value(v as int);
    }
    let s_td = seq![("t"@, dec_token(p.timestamp as int)), ("d"@, dec_token(p.duration as int))];
    let s_wp = crate::encode::opt_attr_num(
        "wp"@,
        match p.window_position {
            Some(x) => Some(x as int),
            None => None,
        },
    );
    let s_ws = crate::encode::opt_attr_num(
        "ws"@,
        match p.window_style {
            Some(x) => Some(x as int),
            None => None,
        },
    );
    assert(paragraph_attrs(p) == s_td + s_wp + s_ws);
    assert(find_attr_p(paragraph_attrs(p), "t"@) == (Some(dec_token(p.timestamp as int)))) by {
        lemma_attr_name_chars();
        lemma_find_attr_concat(s_td + s_wp, s_ws, "t"@);
        lemma_find_attr_concat(s_td, s_wp, "t"@);
        assert(s_td.drop_first() =~= seq![("d"@, dec_token(p.duration as int))]);
        lemma_find_attr_small(s_td.drop_first(), "t"@);
        lemma_find_attr_small(s_wp, "t"@);
        lemma_find_attr_small(s_ws, "t"@);
    }
    assert(find_attr_p(paragraph_attrs(p), "d"@) == (Some(dec_token(p.duration as int)))) by {
        lemma_attr_name_chars();
        lemma_find_attr_concat(s_td + s_wp, s_ws, "d"@);
        lemma_find_attr_concat(s_td, s_wp, "d"@);
        assert(s_td.drop_first() =~= seq![("d"@, dec_token(p.duration as int))]);
        lemma_find_attr_small(s_td.drop_first(), "d"@);
        lemma_find_attr_small(s_wp, "d"@);
        lemma_find_attr_small(s_ws, "d"@);
    }
    assert(find_attr_p(paragraph_attrs(p), "wp"@) == (match p.window_position { Some(x) => Some(dec_token(x as int)), None => None })) by {
        lemma_attr_name_chars();
        lemma_find_attr_concat(s_td + s_wp, s_ws, "wp"@);
        lemma_find_attr_concat(s_td, s_wp, "wp"@);
        assert(s_td.drop_first() =~= seq![("d"@, dec_token(p.duration as int))]);
        lemma_find_attr_small(s_td.drop_first(), "wp"@);
        lemma_find_attr_small(s_wp, "wp"@);
        lemma_find_attr_small(s_ws, "wp"@);
    }
    assert(find_attr_p(paragraph_attrs(p), "ws"@) == (match p.window_style { Some(x) => Some(dec_token(x as int)), None => None })) by {
        lemma_attr_name_chars();
        lemma_find_attr_concat(s_td + s_wp, s_ws, "ws"@);
        lemma_find_attr_concat(s_td, s_wp, "ws"@);
        assert(s_td.drop_first() =~= seq![("d"@, dec_token(p.duration as int))]);
        lemma_find_attr_small(s_td.drop_first(), "ws"@);
        lemma_find_attr_small(s_wp, "ws"@);
        lemma_find_attr_small(s_ws, "ws"@);
    }
    assert(find_attr_p(span_attrs(pen), "p"@) == (match pen { Some(x) => Some(dec_token(x as int)), None => None })) by {
        lemma_attr_name_chars();
        lemma_find_attr_small(span_attrs(pen), "p"@);
    }
}

/// A pen record survives the attribute codec round trip, as long as
/// neither opacity is the suppressed default 255.
/// The decoded value of each pen field over an encoded pen's
/// attribute list: the style half.
#[verifier::rlimit(100)]
proof fn lemma_pen_fields_style(p: Pen)
    requires
        p.foreground_opacity != Some(255u32),
        p.background_opacity != Some(255u8),
    ensures
        crate::decode::dec_req_u32(pen_attrs(p), "id"@) == Ok::<u32, DecodeError>(p.id),
        crate::decode::dec_bool_field(pen_attrs(p), "b"@) == Ok::<Option<bool>, DecodeError>(p.bold),
        crate::decode::dec_bool_field(pen_attrs(p), "i"@) == Ok::<Option<bool>, DecodeError>(p.italic),
        crate::decode::dec_bool_field(pen_attrs(p), "u"@) == Ok::<Option<bool>, DecodeError>(p.underline),
        crate::decode::dec_color_field(pen_attrs(p), "fc"@) == Ok::<Option<crate::model::Color>, DecodeError>(p.foreground_color),
        crate::decode::dec_opacity_u32_field(pen_attrs(p), "fo"@) == Ok::<Option<u32>, DecodeError>(p.foreground_opacity),
        crate::decode::dec_color_field(pen_attrs(p), "bc"@) == Ok::<Option<crate::model::Color>, DecodeError>(p.background_color),
        crate::decode::dec_opacity_u8_field(pen_attrs(p), "bo"@) == Ok::<Option<u8>, DecodeError>(p.background_opacity),
{
    lemma_pen_find_chain(p);
    lemma_dec_token_value(p.id as int);
    if let Some(b) = p.bold {
        crate::token::lemma_bool_token_round_trip(b);
    }
    if let Some(b) = p.italic {
        crate::token::lemma_bool_token_round_trip(b);
    }
    if let Some(b) = p.underline {
        crate::token::lemma_bool_token_round_trip(b);
    }
    if let Some(v) = p.foreground_color {
        crate::token::lemma_color_token_round_trip(v);
    }
    if let Some(v) = p.background_color {
        crate::token::lemma_color_token_round_trip(v);
    }
    if let Some(v) = p.foreground_opacity {
        lemma_dec_token_value(v as int);
    }
    if let Some(v) = p.background_opacity {
        lemma_dec_token_value(v as int);
    }
    lemma_pen_style_finds(p);
    lemma_pen_edge_finds(p);
    lemma_pen_face_finds(p);
}

/// The decoded value of each pen field over an encoded pen's
/// attribute list: the edge and face half.
#[verifier::rlimit(100)]
proof fn lemma_pen_fields_rest(p: Pen)
    ensures
        crate::decode::dec_color_field(pen_attrs(p), "ec"@) == Ok::<Option<crate::model::Color>, DecodeError>(p.edge_color),
        crate::decode::dec_edge_type_field(pen_attrs(p), "et"@) == Ok::<Option<crate::model::EdgeType>, DecodeError>(p.edge_type),
        crate::decode::dec_u32_field(pen_attrs(p), "sz"@) == Ok::<Option<u32>, DecodeError>(p.font_size),
        crate::decode::dec_font_style_field(pen_attrs(p), "fs"@) == Ok::<Option<crate::model::FontStyle>, DecodeError>(p.font_style),
        crate::decode::dec_ruby_style_field(pen_attrs(p), "rb"@) == Ok::<Option<crate::model::RubyStyle>, DecodeError>(p.ruby),
        crate::decode::dec_u32_field(pen_attrs(p), "hg"@) == Ok::<Option<u32>, DecodeError>(p.packing),
        crate::decode::dec_text_offset_field(pen_attrs(p), "of"@) == Ok::<Option<crate::model::TextOffset>, DecodeError>(p.text_offset),
        crate::decode::dec_text_emphasis_field(pen_attrs(p), "te"@) == Ok::<Option<crate::model::TextEmphasis>, DecodeError>(p.text_emphasis),
{
    lemma_pen_find_chain(p);
    if let Some(v) = p.edge_color {
        crate::token::lemma_color_token_round_trip(v);
    }
    if let Some(v) = p.edge_type {
        lemma_dec_token_value(crate::codec::edge_type_code(v) as int);
        crate::codec::lemma_edge_type_round_trip(v);
    }
    if let Some(v) = p.font_size {
        lemma_dec_token_value(v as int);
    }
    if let Some(v) = p.font_style {
        lemma_dec_token_value(crate::codec::font_style_code(v) as int);
        crate::codec::lemma_font_style_round_trip(v);
    }
    if let Some(v) = p.ruby {
        lemma_dec_token_value(crate::codec::ruby_style_code(v) as int);
        crate::codec::lemma_ruby_style_round_trip(v);
    }
    if let Some(v) = p.packing {
        lemma_dec_token_value(v as int);
    }
    if let Some(v) = p.text_offset {
        lemma_dec_token_value(crate::codec::text_offset_code(v) as int);
        crate::codec::lemma_text_offset_round_trip(v);
    }
    if let Some(v) = p.text_emphasis {
        lemma_dec_token_value(crate::codec::text_emphasis_code(v) as int);
        crate::codec::lemma_text_emphasis_round_trip(v);
    }
    lemma_pen_style_finds(p);
    lemma_pen_edge_finds(p);
    lemma_pen_face_finds(p);
}

/// Lookup over a whole pen attribute list decomposes into its three
/// encoded halves.
proof fn lemma_pen_find_chain(p: Pen)
    ensures
        forall|n: Seq<char>| #[trigger] find_attr_p(pen_attrs(p), n)
            == (match find_attr_p(crate::encode::pen_attrs_style(p), n) {
            Some(v) => Some(v),
            None => match find_attr_p(crate::encode::pen_attrs_edge(p), n) {
                Some(v) => Some(v),
                None => find_attr_p(crate::encode::pen_attrs_face(p), n),
            },
        }),
{
    let s_style = crate::encode::pen_attrs_style(p);
    let s_edge = crate::encode::pen_attrs_edge(p);
    let s_face = crate::encode::pen_attrs_face(p);
    assert forall|n: Seq<char>| true implies #[trigger] find_attr_p(pen_attrs(p), n)
        == (match find_attr_p(s_style, n) {
        Some(v) => Some(v),
        None => match find_attr_p(s_edge, n) {
            Some(v) => Some(v),
            None => find_attr_p(s_face, n),
        },
    }) by {
        lemma_find_attr_concat(s_style + s_edge, s_face, n);
        lemma_find_attr_concat(s_style, s_edge, n);
    }
}

/// A pen record survives the attribute codec round trip, as long as
/// neither opacity is the suppressed default 255.
#[verifier::rlimit(100)]
pub proof fn lemma_pen_round_trip(p: Pen)
    requires
        p.foreground_opacity != Some(255u32),
        p.background_opacity != Some(255u8),
    ensures
        pen_of_attrs(pen_attrs(p)) == Ok::<Pen, DecodeError>(p),
{
    reveal(pen_of_attrs);
    lemma_pen_fields_style(p);
    lemma_pen_fields_rest(p);
}

/// The lookups over the leading pen attributes.
proof fn lemma_pen_style_finds(p: Pen)
    ensures
        find_attr_p(crate::encode::pen_attrs_style(p), "id"@) == Some(dec_token(p.id as int)),
        find_attr_p(crate::encode::pen_attrs_style(p), "b"@) == (match p.bold {
            Some(b) => Some(crate::token::bool_token(b)),
            None => None,
        }),
        find_attr_p(crate::encode::pen_attrs_style(p), "i"@) == (match p.italic {
            Some(b) => Some(crate::token::bool_token(b)),
            None => None,
        }),
        find_attr_p(crate::encode::pen_attrs_style(p), "u"@) == (match p.underline {
            Some(b) => Some(crate::token::bool_token(b)),
            None => None,
        }),
        find_attr_p(crate::encode::pen_attrs_style(p), "fc"@) == (match p.foreground_color {
            Some(c) => Some(crate::token::color_token(c)),
            None => None,
        }),
        find_attr_p(crate::encode::pen_attrs_style(p), "fo"@) == (match p.foreground_opacity {
            Some(x) => if x == 255 {
                None
            } else {
                Some(dec_token(x as int))
            },
            None => None,
        }),
        find_attr_p(crate::encode::pen_attrs_style(p), "bc"@) == (match p.background_color {
            Some(c) => Some(crate::token::color_token(c)),
            None => None,
        }),
        find_attr_p(crate::encode::pen_attrs_style(p), "bo"@) == (match p.background_opacity {
            Some(x) => if x == 255 {
                None
            } else {
                Some(dec_token(x as int))
            },
            None => None,
        }),
        find_attr_p(crate::encode::pen_attrs_style(p), "et"@) is None,
        find_attr_p(crate::encode::pen_attrs_style(p), "ec"@) is None,
        find_attr_p(crate::encode::pen_attrs_style(p), "sz"@) is None,
        find_attr_p(crate::encode::pen_attrs_style(p), "fs"@) is None,
        find_attr_p(crate::encode::pen_attrs_style(p), "rb"@) is None,
        find_attr_p(crate::encode::pen_attrs_style(p), "hg"@) is None,
        find_attr_p(crate::encode::pen_attrs_style(p), "of"@) is None,
        find_attr_p(crate::encode::pen_attrs_style(p), "te"@) is None,
{
    lemma_attr_name_chars();
    let s_id = seq![("id"@, dec_token(p.id as int))];
    let s_b = crate::encode::opt_attr_bool("b"@, p.bold);
    let s_i = crate::encode::opt_attr_bool("i"@, p.italic);
    let s_u = crate::encode::opt_attr_bool("u"@, p.underline);
    let s_fc = crate::encode::opt_attr_color("fc"@, p.foreground_color);
    let s_fo = crate::encode::opt_attr_opacity(
        "fo"@,
        match p.foreground_opacity {
            Some(x) => Some(x as int),
            None => None,
        },
    );
    let s_bc = crate::encode::opt_attr_color("bc"@, p.background_color);
    let s_bo = crate::encode::opt_attr_opacity(
        "bo"@,
        match p.background_opacity {
            Some(x) => Some(x as int),
            None => None,
        },
    );
    assert(crate::encode::pen_attrs_style(p) == s_id + s_b + s_i + s_u + s_fc + s_fo + s_bc
        + s_bo);
    assert(find_attr_p(crate::encode::pen_attrs_style(p), "id"@) == (Some(dec_token(p.id as int)))) by {
        lemma_attr_name_chars();
        lemma_find_attr_concat(s_id + s_b + s_i + s_u + s_fc + s_fo + s_bc, s_bo, "id"@);
        lemma_find_attr_concat(s_id + s_b + s_i + s_u + s_fc + s_fo, s_bc, "id"@);
        lemma_find_attr_concat(s_id + s_b + s_i + s_u + s_fc, s_fo, "id"@);
        lemma_find_attr_concat(s_id + s_b + s_i + s_u, s_fc, "id"@);
        lemma_find_attr_concat(s_id + s_b + s_i, s_u, "id"@);
        lemma_find_attr_concat(s_id + s_b, s_i, "id"@);
        lemma_find_attr_concat(s_id, s_b, "id"@);
        lemma_find_attr_small(s_id, "id"@);
        lemma_find_attr_small(s_b, "id"@);
        lemma_find_attr_small(s_i, "id"@);
        lemma_find_attr_small(s_u, "id"@);
        lemma_find_attr_small(s_fc, "id"@);
        lemma_find_attr_small(s_fo, "id"@);
        lemma_find_attr_small(s_bc, "id"@);
        lemma_find_attr_small(s_bo, "id"@);
    }
    assert(find_attr_p(crate::encode::pen_attrs_style(p), "b"@) == (match p.bold { Some(b) => Some(crate::token::bool_token(b)), None => None })) by {
        lemma_attr_name_chars();
        lemma_find_attr_concat(s_id + s_b + s_i + s_u + s_fc + s_fo + s_bc, s_bo, "b"@);
        lemma_find_attr_concat(s_id + s_b + s_i + s_u + s_fc + s_fo, s_bc, "b"@);
        lemma_find_attr_concat(s_id + s_b + s_i + s_u + s_fc, s_fo, "b"@);
        lemma_find_attr_concat(s_id + s_b + s_i + s_u, s_fc, "b"@);
        lemma_find_attr_concat(s_id + s_b + s_i, s_u, "b"@);
        lemma_find_attr_concat(s_id + s_b, s_i, "b"@);
        lemma_find_attr_concat(s_id, s_b, "b"@);
        lemma_find_attr_small(s_id, "b"@);
        lemma_find_attr_small(s_b, "b"@);
        lemma_find_attr_small(s_i, "b"@);
        lemma_find_attr_small(s_u, "b"@);
        lemma_find_attr_small(s_fc, "b"@);
        lemma_find_attr_small(s_fo, "b"@);
        lemma_find_attr_small(s_bc, "b"@);
        lemma_find_attr_small(s_bo, "b"@);
    }
    assert(find_attr_p(crate::encode::pen_attrs_style(p), "i"@) == (match p.italic { Some(b) => Some(crate::token::bool_token(b)), None => None })) by {
        lemma_attr_name_chars();
        lemma_find_attr_concat(s_id + s_b + s_i + s_u + s_fc + s_fo + s_bc, s_bo, "i"@);
        lemma_find_attr_concat(s_id + s_b + s_i + s_u + s_fc + s_fo, s_bc, "i"@);
        lemma_find_attr_concat(s_id + s_b + s_i + s_u + s_fc, s_fo, "i"@);
        lemma_find_attr_concat(s_id + s_b + s_i + s_u, s_fc, "i"@);
        lemma_find_attr_concat(s_id + s_b + s_i, s_u, "i"@);
        lemma_find_attr_concat(s_id + s_b, s_i, "i"@);
        lemma_find_attr_concat(s_id, s_b, "i"@);
        lemma_find_attr_small(s_id, "i"@);
        lemma_find_attr_small(s_b, "i"@);
        lemma_find_attr_small(s_i, "i"@);
        lemma_find_attr_small(s_u, "i"@);
        lemma_find_attr_small(s_fc, "i"@);
        lemma_find_attr_small(s_fo, "i"@);
        lemma_find_attr_small(s_bc, "i"@);
        lemma_find_attr_small(s_bo, "i"@);
    }
    assert(find_attr_p(crate::encode::pen_attrs_style(p), "u"@) == (match p.underline { Some(b) => Some(crate::token::bool_token(b)), None => None })) by {
        lemma_attr_name_chars();
        lemma_find_attr_concat(s_id + s_b + s_i + s_u + s_fc + s_fo + s_bc, s_bo, "u"@);
        lemma_find_attr_concat(s_id + s_b + s_i + s_u + s_fc + s_fo, s_bc, "u"@);
        lemma_find_attr_concat(s_id + s_b + s_i + s_u + s_fc, s_fo, "u"@);
        lemma_find_attr_concat(s_id + s_b + s_i + s_u, s_fc, "u"@);
        lemma_find_attr_concat(s_id + s_b + s_i, s_u, "u"@);
        lemma_find_attr_concat(s_id + s_b, s_i, "u"@);
        lemma_find_attr_concat(s_id, s_b, "u"@);
        lemma_find_attr_small(s_id, "u"@);
        lemma_find_attr_small(s_b, "u"@);
        lemma_find_attr_small(s_i, "u"@);
        lemma_find_attr_small(s_u, "u"@);
        lemma_find_attr_small(s_fc, "u"@);
        lemma_find_attr_small(s_fo, "u"@);
        lemma_find_attr_small(s_bc, "u"@);
        lemma_find_attr_small(s_bo, "u"@);
    }
    assert(find_attr_p(crate::encode::pen_attrs_style(p), "fc"@) == (match p.foreground_color { Some(c) => Some(crate::token::color_token(c)), None => None })) by {
        lemma_attr_name_chars();
        lemma_find_attr_concat(s_id + s_b + s_i + s_u + s_fc + s_fo + s_bc, s_bo, "fc"@);
        lemma_find_attr_concat(s_id + s_b + s_i + s_u + s_fc + s_fo, s_bc, "fc"@);
        lemma_find_attr_concat(s_id + s_b + s_i + s_u + s_fc, s_fo, "fc"@);
        lemma_find_attr_concat(s_id + s_b + s_i + s_u, s_fc, "fc"@);
        lemma_find_attr_concat(s_id + s_b + s_i, s_u, "fc"@);
        lemma_find_attr_concat(s_id + s_b, s_i, "fc"@);
        lemma_find_attr_concat(s_id, s_b, "fc"@);
        lemma_find_attr_small(s_id, "fc"@);
        lemma_find_attr_small(s_b, "fc"@);
        lemma_find_attr_small(s_i, "fc"@);
        lemma_find_attr_small(s_u, "fc"@);
        lemma_find_attr_small(s_fc, "fc"@);
        lemma_find_attr_small(s_fo, "fc"@);
        lemma_find_attr_small(s_bc, "fc"@);
        lemma_find_attr_small(s_bo, "fc"@);
    }
    assert(find_attr_p(crate::encode::pen_attrs_style(p), "fo"@) == (match p.foreground_opacity { Some(x) => if x == 255 { None } else { Some(dec_token(x as int)) }, None => None })) by {
        lemma_attr_name_chars();
        lemma_find_attr_concat(s_id + s_b + s_i + s_u + s_fc + s_fo + s_bc, s_bo, "fo"@);
        lemma_find_attr_concat(s_id + s_b + s_i + s_u + s_fc + s_fo, s_bc, "fo"@);
        lemma_find_attr_concat(s_id + s_b + s_i + s_u + s_fc, s_fo, "fo"@);
        lemma_find_attr_concat(s_id + s_b + s_i + s_u, s_fc, "fo"@);
        lemma_find_attr_concat(s_id + s_b + s_i, s_u, "fo"@);
        lemma_find_attr_concat(s_id + s_b, s_i, "fo"@);
        lemma_find_attr_concat(s_id, s_b, "fo"@);
        lemma_find_attr_small(s_id, "fo"@);
        lemma_find_attr_small(s_b, "fo"@);
        lemma_find_attr_small(s_i, "fo"@);
        lemma_find_attr_small(s_u, "fo"@);
        lemma_find_attr_small(s_fc, "fo"@);
        lemma_find_attr_small(s_fo, "fo"@);
        lemma_find_attr_small(s_bc, "fo"@);
        lemma_find_attr_small(s_bo, "fo"@);
    }
    assert(find_attr_p(crate::encode::pen_attrs_style(p), "bc"@) == (match p.background_color { Some(c) => Some(crate::token::color_token(c)), None => None })) by {
        lemma_attr_name_chars();
        lemma_find_attr_concat(s_id + s_b + s_i + s_u + s_fc + s_fo + s_bc, s_bo, "bc"@);
        lemma_find_attr_concat(s_id + s_b + s_i + s_u + s_fc + s_fo, s_bc, "bc"@);
        lemma_find_attr_concat(s_id + s_b + s_i + s_u + s_fc, s_fo, "bc"@);
        lemma_find_attr_concat(s_id + s_b + s_i + s_u, s_fc, "bc"@);
        lemma_find_attr_concat(s_id + s_b + s_i, s_u, "bc"@);
        lemma_find_attr_concat(s_id + s_b, s_i, "bc"@);
        lemma_find_attr_concat(s_id, s_b, "bc"@);
        lemma_find_attr_small(s_id, "bc"@);
        lemma_find_attr_small(s_b, "bc"@);
        lemma_find_attr_small(s_i, "bc"@);
        lemma_find_attr_small(s_u, "bc"@);
        lemma_find_attr_small(s_fc, "bc"@);
        lemma_find_attr_small(s_fo, "bc"@);
        lemma_find_attr_small(s_bc, "bc"@);
        lemma_find_attr_small(s_bo, "bc"@);
    }
    assert(find_attr_p(crate::encode::pen_attrs_style(p), "bo"@) == (match p.background_opacity { Some(x) => if x == 255 { None } else { Some(dec_token(x as int)) }, None => None })) by {
        lemma_attr_name_chars();
        lemma_find_attr_concat(s_id + s_b + s_i + s_u + s_fc + s_fo + s_bc, s_bo, "bo"@);
        lemma_find_attr_concat(s_id + s_b + s_i + s_u + s_fc + s_fo, s_bc, "bo"@);
        lemma_find_attr_concat(s_id + s_b + s_i + s_u + s_fc, s_fo, "bo"@);
        lemma_find_attr_concat(s_id + s_b + s_i + s_u, s_fc, "bo"@);
        lemma_find_attr_concat(s_id + s_b + s_i, s_u, "bo"@);
        lemma_find_attr_concat(s_id + s_b, s_i, "bo"@);
        lemma_find_attr_concat(s_id, s_b, "bo"@);
        lemma_find_attr_small(s_id, "bo"@);
        lemma_find_attr_small(s_b, "bo"@);
        lemma_find_attr_small(s_i, "bo"@);
        lemma_find_attr_small(s_u, "bo"@);
        lemma_find_attr_small(s_fc, "bo"@);
        lemma_find_attr_small(s_fo, "bo"@);
        lemma_find_attr_small(s_bc, "bo"@);
        lemma_find_attr_small(s_bo, "bo"@);
    }
    assert(find_attr_p(crate::encode::pen_attrs_style(p), "ec"@) == (None::<Seq<char>>)) by {
        lemma_attr_name_chars();
        lemma_find_attr_concat(s_id + s_b + s_i + s_u + s_fc + s_fo + s_bc, s_bo, "ec"@);
        lemma_find_attr_concat(s_id + s_b + s_i + s_u + s_fc + s_fo, s_bc, "ec"@);
        lemma_find_attr_concat(s_id + s_b + s_i + s_u + s_fc, s_fo, "ec"@);
        lemma_find_attr_concat(s_id + s_b + s_i + s_u, s_fc, "ec"@);
        lemma_find_attr_concat(s_id + s_b + s_i, s_u, "ec"@);
        lemma_find_attr_concat(s_id + s_b, s_i, "ec"@);
        lemma_find_attr_concat(s_id, s_b, "ec"@);
        lemma_find_attr_small(s_id, "ec"@);
        lemma_find_attr_small(s_b, "ec"@);
        lemma_find_attr_small(s_i, "ec"@);
        lemma_find_attr_small(s_u, "ec"@);
        lemma_find_attr_small(s_fc, "ec"@);
        lemma_find_attr_small(s_fo, "ec"@);
        lemma_find_attr_small(s_bc, "ec"@);
        lemma_find_attr_small(s_bo, "ec"@);
    }
    assert(find_attr_p(crate::encode::pen_attrs_style(p), "et"@) == (None::<Seq<char>>)) by {
        lemma_attr_name_chars();
        lemma_find_attr_concat(s_id + s_b + s_i + s_u + s_fc + s_fo + s_bc, s_bo, "et"@);
        lemma_find_attr_concat(s_id + s_b + s_i + s_u + s_fc + s_fo, s_bc, "et"@);
        lemma_find_attr_concat(s_id + s_b + s_i + s_u + s_fc, s_fo, "et"@);
        lemma_find_attr_concat(s_id + s_b + s_i + s_u, s_fc, "et"@);
        lemma_find_attr_concat(s_id + s_b + s_i, s_u, "et"@);
        lemma_find_attr_concat(s_id + s_b, s_i, "et"@);
        lemma_find_attr_concat(s_id, s_b, "et"@);
        lemma_find_attr_small(s_id, "et"@);
        lemma_find_attr_small(s_b, "et"@);
        lemma_find_attr_small(s_i, "et"@);
        lemma_find_attr_small(s_u, "et"@);
        lemma_find_attr_small(s_fc, "et"@);
        lemma_find_attr_small(s_fo, "et"@);
        lemma_find_attr_small(s_bc, "et"@);
        lemma_find_attr_small(s_bo, "et"@);
    }
    assert(find_attr_p(crate::encode::pen_attrs_style(p), "sz"@) == (None::<Seq<char>>)) by {
        lemma_attr_name_chars();
        lemma_find_attr_concat(s_id + s_b + s_i + s_u + s_fc + s_fo + s_bc, s_bo, "sz"@);
        lemma_find_attr_concat(s_id + s_b + s_i + s_u + s_fc + s_fo, s_bc, "sz"@);
        lemma_find_attr_concat(s_id + s_b + s_i + s_u + s_fc, s_fo, "sz"@);
        lemma_find_attr_concat(s_id + s_b + s_i + s_u, s_fc, "sz"@);
        lemma_find_attr_concat(s_id + s_b + s_i, s_u, "sz"@);
        lemma_find_attr_concat(s_id + s_b, s_i, "sz"@);
        lemma_find_attr_concat(s_id, s_b, "sz"@);
        lemma_find_attr_small(s_id, "sz"@);
        lemma_find_attr_small(s_b, "sz"@);
        lemma_find_attr_small(s_i, "sz"@);
        lemma_find_attr_small(s_u, "sz"@);
        lemma_find_attr_small(s_fc, "sz"@);
        lemma_find_attr_small(s_fo, "sz"@);
        lemma_find_attr_small(s_bc, "sz"@);
        lemma_find_attr_small(s_bo, "sz"@);
    }
    assert(find_attr_p(crate::encode::pen_attrs_style(p), "fs"@) == (None::<Seq<char>>)) by {
        lemma_attr_name_chars();
        lemma_find_attr_concat(s_id + s_b + s_i + s_u + s_fc + s_fo + s_bc, s_bo, "fs"@);
        lemma_find_attr_concat(s_id + s_b + s_i + s_u + s_fc + s_fo, s_bc, "fs"@);
        lemma_find_attr_concat(s_id + s_b + s_i + s_u + s_fc, s_fo, "fs"@);
        lemma_find_attr_concat(s_id + s_b + s_i + s_u, s_fc, "fs"@);
        lemma_find_attr_concat(s_id + s_b + s_i, s_u, "fs"@);
        lemma_find_attr_concat(s_id + s_b, s_i, "fs"@);
        lemma_find_attr_concat(s_id, s_b, "fs"@);
        lemma_find_attr_small(s_id, "fs"@);
        lemma_find_attr_small(s_b, "fs"@);
        lemma_find_attr_small(s_i, "fs"@);
        lemma_find_attr_small(s_u, "fs"@);
        lemma_find_attr_small(s_fc, "fs"@);
        lemma_find_attr_small(s_fo, "fs"@);
        lemma_find_attr_small(s_bc, "fs"@);
        lemma_find_attr_small(s_bo, "fs"@);
    }
    assert(find_attr_p(crate::encode::pen_attrs_style(p), "rb"@) == (None::<Seq<char>>)) by {
        lemma_attr_name_chars();
        lemma_find_attr_concat(s_id + s_b + s_i + s_u + s_fc + s_fo + s_bc, s_bo, "rb"@);
        lemma_find_attr_concat(s_id + s_b + s_i + s_u + s_fc + s_fo, s_bc, "rb"@);
        lemma_find_attr_concat(s_id + s_b + s_i + s_u + s_fc, s_fo, "rb"@);
        lemma_find_attr_concat(s_id + s_b + s_i + s_u, s_fc, "rb"@);
        lemma_find_attr_concat(s_id + s_b + s_i, s_u, "rb"@);
        lemma_find_attr_concat(s_id + s_b, s_i, "rb"@);
        lemma_find_attr_concat(s_id, s_b, "rb"@);
        lemma_find_attr_small(s_id, "rb"@);
        lemma_find_attr_small(s_b, "rb"@);
        lemma_find_attr_small(s_i, "rb"@);
        lemma_find_attr_small(s_u, "rb"@);
        lemma_find_attr_small(s_fc, "rb"@);
        lemma_find_attr_small(s_fo, "rb"@);
        lemma_find_attr_small(s_bc, "rb"@);
        lemma_find_attr_small(s_bo, "rb"@);
    }
    assert(find_attr_p(crate::encode::pen_attrs_style(p), "hg"@) == (None::<Seq<char>>)) by {
        lemma_attr_name_chars();
        lemma_find_attr_concat(s_id + s_b + s_i + s_u + s_fc + s_fo + s_bc, s_bo, "hg"@);
        lemma_find_attr_concat(s_id + s_b + s_i + s_u + s_fc + s_fo, s_bc, "hg"@);
        lemma_find_attr_concat(s_id + s_b + s_i + s_u + s_fc, s_fo, "hg"@);
        lemma_find_attr_concat(s_id + s_b + s_i + s_u, s_fc, "hg"@);
        lemma_find_attr_concat(s_id + s_b + s_i, s_u, "hg"@);
        lemma_find_attr_concat(s_id + s_b, s_i, "hg"@);
        lemma_find_attr_concat(s_id, s_b, "hg"@);
        lemma_find_attr_small(s_id, "hg"@);
        lemma_find_attr_small(s_b, "hg"@);
        lemma_find_attr_small(s_i, "hg"@);
        lemma_find_attr_small(s_u, "hg"@);
        lemma_find_attr_small(s_fc, "hg"@);
        lemma_find_attr_small(s_fo, "hg"@);
        lemma_find_attr_small(s_bc, "hg"@);
        lemma_find_attr_small(s_bo, "hg"@);
    }
    assert(find_attr_p(crate::encode::pen_attrs_style(p), "of"@) == (None::<Seq<char>>)) by {
        lemma_attr_name_chars();
        lemma_find_attr_concat(s_id + s_b + s_i + s_u + s_fc + s_fo + s_bc, s_bo, "of"@);
        lemma_find_attr_concat(s_id + s_b + s_i + s_u + s_fc + s_fo, s_bc, "of"@);
        lemma_find_attr_concat(s_id + s_b + s_i + s_u + s_fc, s_fo, "of"@);
        lemma_find_attr_concat(s_id + s_b + s_i + s_u, s_fc, "of"@);
        lemma_find_attr_concat(s_id + s_b + s_i, s_u, "of"@);
        lemma_find_attr_concat(s_id + s_b, s_i, "of"@);
        lemma_find_attr_concat(s_id, s_b, "of"@);
        lemma_find_attr_small(s_id, "of"@);
        lemma_find_attr_small(s_b, "of"@);
        lemma_find_attr_small(s_i, "of"@);
        lemma_find_attr_small(s_u, "of"@);
        lemma_find_attr_small(s_fc, "of"@);
        lemma_find_attr_small(s_fo, "of"@);
        lemma_find_attr_small(s_bc, "of"@);
        lemma_find_attr_small(s_bo, "of"@);
    }
    assert(find_attr_p(crate::encode::pen_attrs_style(p), "te"@) == (None::<Seq<char>>)) by {
        lemma_attr_name_chars();
        lemma_find_attr_concat(s_id + s_b + s_i + s_u + s_fc + s_fo + s_bc, s_bo, "te"@);
        lemma_find_attr_concat(s_id + s_b + s_i + s_u + s_fc + s_fo, s_bc, "te"@);
        lemma_find_attr_concat(s_id + s_b + s_i + s_u + s_fc, s_fo, "te"@);
        lemma_find_attr_concat(s_id + s_b + s_i + s_u, s_fc, "te"@);
        lemma_find_attr_concat(s_id + s_b + s_i, s_u, "te"@);
        lemma_find_attr_concat(s_id + s_b, s_i, "te"@);
        lemma_find_attr_concat(s_id, s_b, "te"@);
        lemma_find_attr_small(s_id, "te"@);
        lemma_find_attr_small(s_b, "te"@);
        lemma_find_attr_small(s_i, "te"@);
        lemma_find_attr_small(s_u, "te"@);
        lemma_find_attr_small(s_fc, "te"@);
        lemma_find_attr_small(s_fo, "te"@);
        lemma_find_attr_small(s_bc, "te"@);
        lemma_find_attr_small(s_bo, "te"@);
    }
}

/// The lookups over the edge and size pen attributes, and the absence
/// of every other pen attribute there.
proof fn lemma_pen_edge_finds(p: Pen)
    ensures
        find_attr_p(crate::encode::pen_attrs_edge(p), "ec"@) == (match p.edge_color {
            Some(c) => Some(crate::token::color_token(c)),
            None => None,
        }),
        find_attr_p(crate::encode::pen_attrs_edge(p), "et"@) == (match p.edge_type {
            Some(v) => Some(dec_token(crate::codec::edge_type_code(v) as int)),
            None => None,
        }),
        find_attr_p(crate::encode::pen_attrs_edge(p), "sz"@) == (match p.font_size {
            Some(x) => Some(dec_token(x as int)),
            None => None,
        }),
        find_attr_p(crate::encode::pen_attrs_edge(p), "id"@) is None,
        find_attr_p(crate::encode::pen_attrs_edge(p), "b"@) is None,
        find_attr_p(crate::encode::pen_attrs_edge(p), "i"@) is None,
        find_attr_p(crate::encode::pen_attrs_edge(p), "u"@) is None,
        find_attr_p(crate::encode::pen_attrs_edge(p), "fc"@) is None,
        find_attr_p(crate::encode::pen_attrs_edge(p), "fo"@) is None,
        find_attr_p(crate::encode::pen_attrs_edge(p), "bc"@) is None,
        find_attr_p(crate::encode::pen_attrs_edge(p), "bo"@) is None,
        find_attr_p(crate::encode::pen_attrs_edge(p), "fs"@) is None,
        find_attr_p(crate::encode::pen_attrs_edge(p), "rb"@) is None,
        find_attr_p(crate::encode::pen_attrs_edge(p), "hg"@) is None,
        find_attr_p(crate::encode::pen_attrs_edge(p), "of"@) is None,
        find_attr_p(crate::encode::pen_attrs_edge(p), "te"@) is None,
{
    let s_ec = crate::encode::opt_attr_color("ec"@, p.edge_color);
    let s_et = crate::encode::opt_attr_num(
        "et"@,
        match p.edge_type {
            Some(v) => Some(crate::codec::edge_type_code(v) as int),
            None => None,
        },
    );
    let s_sz = crate::encode::opt_attr_num(
        "sz"@,
        match p.font_size {
            Some(x) => Some(x as int),
            None => None,
        },
    );
    assert(crate::encode::pen_attrs_edge(p) == s_ec + s_et + s_sz);
    assert(find_attr_p(crate::encode::pen_attrs_edge(p), "ec"@) == (match p.edge_color { Some(c) => Some(crate::token::color_token(c)), None => None })) by {
        lemma_attr_name_chars();
        lemma_find_attr_concat(s_ec + s_et, s_sz, "ec"@);
        lemma_find_attr_concat(s_ec, s_et, "ec"@);
        lemma_find_attr_small(s_ec, "ec"@);
        lemma_find_attr_small(s_et, "ec"@);
        lemma_find_attr_small(s_sz, "ec"@);
    }
    assert(find_attr_p(crate::encode::pen_attrs_edge(p), "et"@) == (match p.edge_type { Some(v) => Some(dec_token(crate::codec::edge_type_code(v) as int)), None => None })) by {
        lemma_attr_name_chars();
        lemma_find_attr_concat(s_ec + s_et, s_sz, "et"@);
        lemma_find_attr_concat(s_ec, s_et, "et"@);
        lemma_find_attr_small(s_ec, "et"@);
        lemma_find_attr_small(s_et, "et"@);
        lemma_find_attr_small(s_sz, "et"@);
    }
    assert(find_attr_p(crate::encode::pen_attrs_edge(p), "sz"@) == (match p.font_size { Some(x) => Some(dec_token(x as int)), None => None })) by {
        lemma_attr_name_chars();
        lemma_find_attr_concat(s_ec + s_et, s_sz, "sz"@);
        lemma_find_attr_concat(s_ec, s_et, "sz"@);
        lemma_find_attr_small(s_ec, "sz"@);
        lemma_find_attr_small(s_et, "sz"@);
        lemma_find_attr_small(s_sz, "sz"@);
    }
    assert(find_attr_p(crate::encode::pen_attrs_edge(p), "id"@) == (None::<Seq<char>>)) by {
        lemma_attr_name_chars();
        lemma_find_attr_concat(s_ec + s_et, s_sz, "id"@);
        lemma_find_attr_concat(s_ec, s_et, "id"@);
        lemma_find_attr_small(s_ec, "id"@);
        lemma_find_attr_small(s_et, "id"@);
        lemma_find_attr_small(s_sz, "id"@);
    }
    assert(find_attr_p(crate::encode::pen_attrs_edge(p), "b"@) == (None::<Seq<char>>)) by {
        lemma_attr_name_chars();
        lemma_find_attr_concat(s_ec + s_et, s_sz, "b"@);
        lemma_find_attr_concat(s_ec, s_et, "b"@);
        lemma_find_attr_small(s_ec, "b"@);
        lemma_find_attr_small(s_et, "b"@);
        lemma_find_attr_small(s_sz, "b"@);
    }
    assert(find_attr_p(crate::encode::pen_attrs_edge(p), "i"@) == (None::<Seq<char>>)) by {
        lemma_attr_name_chars();
        lemma_find_attr_concat(s_ec + s_et, s_sz, "i"@);
        lemma_find_attr_concat(s_ec, s_et, "i"@);
        lemma_find_attr_small(s_ec, "i"@);
        lemma_find_attr_small(s_et, "i"@);
        lemma_find_attr_small(s_sz, "i"@);
    }
    assert(find_attr_p(crate::encode::pen_attrs_edge(p), "u"@) == (None::<Seq<char>>)) by {
        lemma_attr_name_chars();
        lemma_find_attr_concat(s_ec + s_et, s_sz, "u"@);
        lemma_find_attr_concat(s_ec, s_et, "u"@);
        lemma_find_attr_small(s_ec, "u"@);
        lemma_find_attr_small(s_et, "u"@);
        lemma_find_attr_small(s_sz, "u"@);
    }
    assert(find_attr_p(crate::encode::pen_attrs_edge(p), "fc"@) == (None::<Seq<char>>)) by {
        lemma_attr_name_chars();
        lemma_find_attr_concat(s_ec + s_et, s_sz, "fc"@);
        lemma_find_attr_concat(s_ec, s_et, "fc"@);
        lemma_find_attr_small(s_ec, "fc"@);
        lemma_find_attr_small(s_et, "fc"@);
        lemma_find_attr_small(s_sz, "fc"@);
    }
    assert(find_attr_p(crate::encode::pen_attrs_edge(p), "fo"@) == (None::<Seq<char>>)) by {
        lemma_attr_name_chars();
        lemma_find_attr_concat(s_ec + s_et, s_sz, "fo"@);
        lemma_find_attr_concat(s_ec, s_et, "fo"@);
        lemma_find_attr_small(s_ec, "fo"@);
        lemma_find_attr_small(s_et, "fo"@);
        lemma_find_attr_small(s_sz, "fo"@);
    }
    assert(find_attr_p(crate::encode::pen_attrs_edge(p), "bc"@) == (None::<Seq<char>>)) by {
        lemma_attr_name_chars();
        lemma_find_attr_concat(s_ec + s_et, s_sz, "bc"@);
        lemma_find_attr_concat(s_ec, s_et, "bc"@);
        lemma_find_attr_small(s_ec, "bc"@);
        lemma_find_attr_small(s_et, "bc"@);
        lemma_find_attr_small(s_sz, "bc"@);
    }
    assert(find_attr_p(crate::encode::pen_attrs_edge(p), "bo"@) == (None::<Seq<char>>)) by {
        lemma_attr_name_chars();
        lemma_find_attr_concat(s_ec + s_et, s_sz, "bo"@);
        lemma_find_attr_concat(s_ec, s_et, "bo"@);
        lemma_find_attr_small(s_ec, "bo"@);
        lemma_find_attr_small(s_et, "bo"@);
        lemma_find_attr_small(s_sz, "bo"@);
    }
    assert(find_attr_p(crate::encode::pen_attrs_edge(p), "fs"@) == (None::<Seq<char>>)) by {
        lemma_attr_name_chars();
        lemma_find_attr_concat(s_ec + s_et, s_sz, "fs"@);
        lemma_find_attr_concat(s_ec, s_et, "fs"@);
        lemma_find_attr_small(s_ec, "fs"@);
        lemma_find_attr_small(s_et, "fs"@);
        lemma_find_attr_small(s_sz, "fs"@);
    }
    assert(find_attr_p(crate::encode::pen_attrs_edge(p), "rb"@) == (None::<Seq<char>>)) by {
        lemma_attr_name_chars();
        lemma_find_attr_concat(s_ec + s_et, s_sz, "rb"@);
        lemma_find_attr_concat(s_ec, s_et, "rb"@);
        lemma_find_attr_small(s_ec, "rb"@);
        lemma_find_attr_small(s_et, "rb"@);
        lemma_find_attr_small(s_sz, "rb"@);
    }
    assert(find_attr_p(crate::encode::pen_attrs_edge(p), "hg"@) == (None::<Seq<char>>)) by {
        lemma_attr_name_chars();
        lemma_find_attr_concat(s_ec + s_et, s_sz, "hg"@);
        lemma_find_attr_concat(s_ec, s_et, "hg"@);
        lemma_find_attr_small(s_ec, "hg"@);
        lemma_find_attr_small(s_et, "hg"@);
        lemma_find_attr_small(s_sz, "hg"@);
    }
    assert(find_attr_p(crate::encode::pen_attrs_edge(p), "of"@) == (None::<Seq<char>>)) by {
        lemma_attr_name_chars();
        lemma_find_attr_concat(s_ec + s_et, s_sz, "of"@);
        lemma_find_attr_concat(s_ec, s_et, "of"@);
        lemma_find_attr_small(s_ec, "of"@);
        lemma_find_attr_small(s_et, "of"@);
        lemma_find_attr_small(s_sz, "of"@);
    }
    assert(find_attr_p(crate::encode::pen_attrs_edge(p), "te"@) == (None::<Seq<char>>)) by {
        lemma_attr_name_chars();
        lemma_find_attr_concat(s_ec + s_et, s_sz, "te"@);
        lemma_find_attr_concat(s_ec, s_et, "te"@);
        lemma_find_attr_small(s_ec, "te"@);
        lemma_find_attr_small(s_et, "te"@);
        lemma_find_attr_small(s_sz, "te"@);
    }
}

/// The lookups over the face, ruby, packing, offset and emphasis pen
/// attributes, and the absence of every other pen attribute there.
proof fn lemma_pen_face_finds(p: Pen)
    ensures
        find_attr_p(crate::encode::pen_attrs_face(p), "fs"@) == (match p.font_style {
            Some(v) => Some(dec_token(crate::codec::font_style_code(v) as int)),
            None => None,
        }),
        find_attr_p(crate::encode::pen_attrs_face(p), "rb"@) == (match p.ruby {
            Some(v) => Some(dec_token(crate::codec::ruby_style_code(v) as int)),
            None => None,
        }),
        find_attr_p(crate::encode::pen_attrs_face(p), "hg"@) == (match p.packing {
            Some(x) => Some(dec_token(x as int)),
            None => None,
        }),
        find_attr_p(crate::encode::pen_attrs_face(p), "of"@) == (match p.text_offset {
            Some(v) => Some(dec_token(crate::codec::text_offset_code(v) as int)),
            None => None,
        }),
        find_attr_p(crate::encode::pen_attrs_face(p), "te"@) == (match p.text_emphasis {
            Some(v) => Some(dec_token(crate::codec::text_emphasis_code(v) as int)),
            None => None,
        }),
        find_attr_p(crate::encode::pen_attrs_face(p), "id"@) is None,
        find_attr_p(crate::encode::pen_attrs_face(p), "b"@) is None,
        find_attr_p(crate::encode::pen_attrs_face(p), "i"@) is None,
        find_attr_p(crate::encode::pen_attrs_face(p), "u"@) is None,
        find_attr_p(crate::encode::pen_attrs_face(p), "fc"@) is None,
        find_attr_p(crate::encode::pen_attrs_face(p), "fo"@) is None,
        find_attr_p(crate::encode::pen_attrs_face(p), "bc"@) is None,
        find_attr_p(crate::encode::pen_attrs_face(p), "bo"@) is None,
        find_attr_p(crate::encode::pen_attrs_face(p), "ec"@) is None,
        find_attr_p(crate::encode::pen_attrs_face(p), "et"@) is None,
        find_attr_p(crate::encode::pen_attrs_face(p), "sz"@) is None,
{
    let s_fs = crate::encode::opt_attr_num(
        "fs"@,
        match p.font_style {
            Some(v) => Some(crate::codec::font_style_code(v) as int),
            None => None,
        },
    );
    let s_rb = crate::encode::opt_attr_num(
        "rb"@,
        match p.ruby {
            Some(v) => Some(crate::codec::ruby_style_code(v) as int),
            None => None,
        },
    );
    let s_hg = crate::encode::opt_attr_num(
        "hg"@,
        match p.packing {
            Some(x) => Some(x as int),
            None => None,
        },
    );
    let s_of = crate::encode::opt_attr_num(
        "of"@,
        match p.text_offset {
            Some(v) => Some(crate::codec::text_offset_code(v) as int),
            None => None,
        },
    );
    let s_te = crate::encode::opt_attr_num(
        "te"@,
        match p.text_emphasis {
            Some(v) => Some(crate::codec::text_emphasis_code(v) as int),
            None => None,
        },
    );
    assert(crate::encode::pen_attrs_face(p) == s_fs + s_rb + s_hg + s_of + s_te);
    assert(find_attr_p(crate::encode::pen_attrs_face(p), "fs"@) == (match p.font_style { Some(v) => Some(dec_token(crate::codec::font_style_code(v) as int)), None => None })) by {
        lemma_attr_name_chars();
        lemma_find_attr_concat(s_fs + s_rb + s_hg + s_of, s_te, "fs"@);
        lemma_find_attr_concat(s_fs + s_rb + s_hg, s_of, "fs"@);
        lemma_find_attr_concat(s_fs + s_rb, s_hg, "fs"@);
        lemma_find_attr_concat(s_fs, s_rb, "fs"@);
        lemma_find_attr_small(s_fs, "fs"@);
        lemma_find_attr_small(s_rb, "fs"@);
        lemma_find_attr_small(s_hg, "fs"@);
        lemma_find_attr_small(s_of, "fs"@);
        lemma_find_attr_small(s_te, "fs"@);
    }
    assert(find_attr_p(crate::encode::pen_attrs_face(p), "rb"@) == (match p.ruby { Some(v) => Some(dec_token(crate::codec::ruby_style_code(v) as int)), None => None })) by {
        lemma_attr_name_chars();
        lemma_find_attr_concat(s_fs + s_rb + s_hg + s_of, s_te, "rb"@);
        lemma_find_attr_concat(s_fs + s_rb + s_hg, s_of, "rb"@);
        lemma_find_attr_concat(s_fs + s_rb, s_hg, "rb"@);
        lemma_find_attr_concat(s_fs, s_rb, "rb"@);
        lemma_find_attr_small(s_fs, "rb"@);
        lemma_find_attr_small(s_rb, "rb"@);
        lemma_find_attr_small(s_hg, "rb"@);
        lemma_find_attr_small(s_of, "rb"@);
        lemma_find_attr_small(s_te, "rb"@);
    }
    assert(find_attr_p(crate::encode::pen_attrs_face(p), "hg"@) == (match p.packing { Some(x) => Some(dec_token(x as int)), None => None })) by {
        lemma_attr_name_chars();
        lemma_find_attr_concat(s_fs + s_rb + s_hg + s_of, s_te, "hg"@);
        lemma_find_attr_concat(s_fs + s_rb + s_hg, s_of, "hg"@);
        lemma_find_attr_concat(s_fs + s_rb, s_hg, "hg"@);
        lemma_find_attr_concat(s_fs, s_rb, "hg"@);
        lemma_find_attr_small(s_fs, "hg"@);
        lemma_find_attr_small(s_rb, "hg"@);
        lemma_find_attr_small(s_hg, "hg"@);
        lemma_find_attr_small(s_of, "hg"@);
        lemma_find_attr_small(s_te, "hg"@);
    }
    assert(find_attr_p(crate::encode::pen_attrs_face(p), "of"@) == (match p.text_offset { Some(v) => Some(dec_token(crate::codec::text_offset_code(v) as int)), None => None })) by {
        lemma_attr_name_chars();
        lemma_find_attr_concat(s_fs + s_rb + s_hg + s_of, s_te, "of"@);
        lemma_find_attr_concat(s_fs + s_rb + s_hg, s_of, "of"@);
        lemma_find_attr_concat(s_fs + s_rb, s_hg, "of"@);
        lemma_find_attr_concat(s_fs, s_rb, "of"@);
        lemma_find_attr_small(s_fs, "of"@);
        lemma_find_attr_small(s_rb, "of"@);
        lemma_find_attr_small(s_hg, "of"@);
        lemma_find_attr_small(s_of, "of"@);
        lemma_find_attr_small(s_te, "of"@);
    }
    assert(find_attr_p(crate::encode::pen_attrs_face(p), "te"@) == (match p.text_emphasis { Some(v) => Some(dec_token(crate::codec::text_emphasis_code(v) as int)), None => None })) by {
        lemma_attr_name_chars();
        lemma_find_attr_concat(s_fs + s_rb + s_hg + s_of, s_te, "te"@);
        lemma_find_attr_concat(s_fs + s_rb + s_hg, s_of, "te"@);
        lemma_find_attr_concat(s_fs + s_rb, s_hg, "te"@);
        lemma_find_attr_concat(s_fs, s_rb, "te"@);
        lemma_find_attr_small(s_fs, "te"@);
        lemma_find_attr_small(s_rb, "te"@);
        lemma_find_attr_small(s_hg, "te"@);
        lemma_find_attr_small(s_of, "te"@);
        lemma_find_attr_small(s_te, "te"@);
    }
    assert(find_attr_p(crate::encode::pen_attrs_face(p), "id"@) == (None::<Seq<char>>)) by {
        lemma_attr_name_chars();
        lemma_find_attr_concat(s_fs + s_rb + s_hg + s_of, s_te, "id"@);
        lemma_find_attr_concat(s_fs + s_rb + s_hg, s_of, "id"@);
        lemma_find_attr_concat(s_fs + s_rb, s_hg, "id"@);
        lemma_find_attr_concat(s_fs, s_rb, "id"@);
        lemma_find_attr_small(s_fs, "id"@);
        lemma_find_attr_small(s_rb, "id"@);
        lemma_find_attr_small(s_hg, "id"@);
        lemma_find_attr_small(s_of, "id"@);
        lemma_find_attr_small(s_te, "id"@);
    }
    assert(find_attr_p(crate::encode::pen_attrs_face(p), "b"@) == (None::<Seq<char>>)) by {
        lemma_attr_name_chars();
        lemma_find_attr_concat(s_fs + s_rb + s_hg + s_of, s_te, "b"@);
        lemma_find_attr_concat(s_fs + s_rb + s_hg, s_of, "b"@);
        lemma_find_attr_concat(s_fs + s_rb, s_hg, "b"@);
        lemma_find_attr_concat(s_fs, s_rb, "b"@);
        lemma_find_attr_small(s_fs, "b"@);
        lemma_find_attr_small(s_rb, "b"@);
        lemma_find_attr_small(s_hg, "b"@);
        lemma_find_attr_small(s_of, "b"@);
        lemma_find_attr_small(s_te, "b"@);
    }
    assert(find_attr_p(crate::encode::pen_attrs_face(p), "i"@) == (None::<Seq<char>>)) by {
        lemma_attr_name_chars();
        lemma_find_attr_concat(s_fs + s_rb + s_hg + s_of, s_te, "i"@);
        lemma_find_attr_concat(s_fs + s_rb + s_hg, s_of, "i"@);
        lemma_find_attr_concat(s_fs + s_rb, s_hg, "i"@);
        lemma_find_attr_concat(s_fs, s_rb, "i"@);
        lemma_find_attr_small(s_fs, "i"@);
        lemma_find_attr_small(s_rb, "i"@);
        lemma_find_attr_small(s_hg, "i"@);
        lemma_find_attr_small(s_of, "i"@);
        lemma_find_attr_small(s_te, "i"@);
    }
    assert(find_attr_p(crate::encode::pen_attrs_face(p), "u"@) == (None::<Seq<char>>)) by {
        lemma_attr_name_chars();
        lemma_find_attr_concat(s_fs + s_rb + s_hg + s_of, s_te, "u"@);
        lemma_find_attr_concat(s_fs + s_rb + s_hg, s_of, "u"@);
        lemma_find_attr_concat(s_fs + s_rb, s_hg, "u"@);
        lemma_find_attr_concat(s_fs, s_rb, "u"@);
        lemma_find_attr_small(s_fs, "u"@);
        lemma_find_attr_small(s_rb, "u"@);
        lemma_find_attr_small(s_hg, "u"@);
        lemma_find_attr_small(s_of, "u"@);
        lemma_find_attr_small(s_te, "u"@);
    }
    assert(find_attr_p(crate::encode::pen_attrs_face(p), "fc"@) == (None::<Seq<char>>)) by {
        lemma_attr_name_chars();
        lemma_find_attr_concat(s_fs + s_rb + s_hg + s_of, s_te, "fc"@);
        lemma_find_attr_concat(s_fs + s_rb + s_hg, s_of, "fc"@);
        lemma_find_attr_concat(s_fs + s_rb, s_hg, "fc"@);
        lemma_find_attr_concat(s_fs, s_rb, "fc"@);
        lemma_find_attr_small(s_fs, "fc"@);
        lemma_find_attr_small(s_rb, "fc"@);
        lemma_find_attr_small(s_hg, "fc"@);
        lemma_find_attr_small(s_of, "fc"@);
        lemma_find_attr_small(s_te, "fc"@);
    }
    assert(find_attr_p(crate::encode::pen_attrs_face(p), "fo"@) == (None::<Seq<char>>)) by {
        lemma_attr_name_chars();
        lemma_find_attr_concat(s_fs + s_rb + s_hg + s_of, s_te, "fo"@);
        lemma_find_attr_concat(s_fs + s_rb + s_hg, s_of, "fo"@);
        lemma_find_attr_concat(s_fs + s_rb, s_hg, "fo"@);
        lemma_find_attr_concat(s_fs, s_rb, "fo"@);
        lemma_find_attr_small(s_fs, "fo"@);
        lemma_find_attr_small(s_rb, "fo"@);
        lemma_find_attr_small(s_hg, "fo"@);
        lemma_find_attr_small(s_of, "fo"@);
        lemma_find_attr_small(s_te, "fo"@);
    }
    assert(find_attr_p(crate::encode::pen_attrs_face(p), "bc"@) == (None::<Seq<char>>)) by {
        lemma_attr_name_chars();
        lemma_find_attr_concat(s_fs + s_rb + s_hg + s_of, s_te, "bc"@);
        lemma_find_attr_concat(s_fs + s_rb + s_hg, s_of, "bc"@);
        lemma_find_attr_concat(s_fs + s_rb, s_hg, "bc"@);
        lemma_find_attr_concat(s_fs, s_rb, "bc"@);
        lemma_find_attr_small(s_fs, "bc"@);
        lemma_find_attr_small(s_rb, "bc"@);
        lemma_find_attr_small(s_hg, "bc"@);
        lemma_find_attr_small(s_of, "bc"@);
        lemma_find_attr_small(s_te, "bc"@);
    }
    assert(find_attr_p(crate::encode::pen_attrs_face(p), "bo"@) == (None::<Seq<char>>)) by {
        lemma_attr_name_chars();
        lemma_find_attr_concat(s_fs + s_rb + s_hg + s_of, s_te, "bo"@);
        lemma_find_attr_concat(s_fs + s_rb + s_hg, s_of, "bo"@);
        lemma_find_attr_concat(s_fs + s_rb, s_hg, "bo"@);
        lemma_find_attr_concat(s_fs, s_rb, "bo"@);
        lemma_find_attr_small(s_fs, "bo"@);
        lemma_find_attr_small(s_rb, "bo"@);
        lemma_find_attr_small(s_hg, "bo"@);
        lemma_find_attr_small(s_of, "bo"@);
        lemma_find_attr_small(s_te, "bo"@);
    }
    assert(find_attr_p(crate::encode::pen_attrs_face(p), "ec"@) == (None::<Seq<char>>)) by {
        lemma_attr_name_chars();
        lemma_find_attr_concat(s_fs + s_rb + s_hg + s_of, s_te, "ec"@);
        lemma_find_attr_concat(s_fs + s_rb + s_hg, s_of, "ec"@);
        lemma_find_attr_concat(s_fs + s_rb, s_hg, "ec"@);
        lemma_find_attr_concat(s_fs, s_rb, "ec"@);
        lemma_find_attr_small(s_fs, "ec"@);
        lemma_find_attr_small(s_rb, "ec"@);
        lemma_find_attr_small(s_hg, "ec"@);
        lemma_find_attr_small(s_of, "ec"@);
        lemma_find_attr_small(s_te, "ec"@);
    }
    assert(find_attr_p(crate::encode::pen_attrs_face(p), "et"@) == (None::<Seq<char>>)) by {
        lemma_attr_name_chars();
        lemma_find_attr_concat(s_fs + s_rb + s_hg + s_of, s_te, "et"@);
        lemma_find_attr_concat(s_fs + s_rb + s_hg, s_of, "et"@);
        lemma_find_attr_concat(s_fs + s_rb, s_hg, "et"@);
        lemma_find_attr_concat(s_fs, s_rb, "et"@);
        lemma_find_attr_small(s_fs, "et"@);
        lemma_find_attr_small(s_rb, "et"@);
        lemma_find_attr_small(s_hg, "et"@);
        lemma_find_attr_small(s_of, "et"@);
        lemma_find_attr_small(s_te, "et"@);
    }
    assert(find_attr_p(crate::encode::pen_attrs_face(p), "sz"@) == (None::<Seq<char>>)) by {
        lemma_attr_name_chars();
        lemma_find_attr_concat(s_fs + s_rb + s_hg + s_of, s_te, "sz"@);
        lemma_find_attr_concat(s_fs + s_rb + s_hg, s_of, "sz"@);
        lemma_find_attr_concat(s_fs + s_rb, s_hg, "sz"@);
        lemma_find_attr_concat(s_fs, s_rb, "sz"@);
        lemma_find_attr_small(s_fs, "sz"@);
        lemma_find_attr_small(s_rb, "sz"@);
        lemma_find_attr_small(s_hg, "sz"@);
        lemma_find_attr_small(s_of, "sz"@);
        lemma_find_attr_small(s_te, "sz"@);
    }
}

/// Default suppression is coherent on the decode side: an opacity
/// attribute explicitly set to the default 255 decodes to the same
/// typed value as the attribute absent — `None` either way.
pub proof fn lemma_opacity_default_suppression(a: Seq<(Seq<char>, Seq<char>)>, name: Seq<char>)
    requires
        find_attr_p(a, name) is None,
    ensures
        crate::decode::dec_opacity_u32_field(a.push((name, dec_token(255))), name)
            == crate::decode::dec_opacity_u32_field(a, name),
        crate::decode::dec_opacity_u32_field(a, name) == Ok::<Option<u32>, DecodeError>(None),
{
    lemma_dec_token_value(255);
    lemma_find_attr_push(a, (name, dec_token(255)), name);
}

/// Default suppression is coherent for the mode hint: a window style
/// whose mode hint is explicitly the default code 0 decodes to the
/// same value as one with the attribute absent.
pub proof fn lemma_mode_hint_default_suppression(a: Seq<(Seq<char>, Seq<char>)>)
    requires
        find_attr_p(a, "mh"@) is None,
    ensures
        ws_of_attrs(a.push(("mh"@, dec_token(0)))) == ws_of_attrs(a),
{
    reveal(ws_of_attrs);
    lemma_attr_name_chars();
    lemma_dec_token_value(0);
    let x = ("mh"@, dec_token(0));
    assert forall|n: Seq<char>| n != "mh"@ implies #[trigger] find_attr_p(a.push(x), n)
        == find_attr_p(a, n) by {
        lemma_find_attr_push(a, x, n);
    }
    lemma_find_attr_push(a, x, "mh"@);
    assert(find_attr_p(a.push(x), "mh"@) == Some(dec_token(0)));
}

/// Closed-enum rejection: a justification attribute holding any code
/// outside its set fails with an unrecognized-enum-value error.
pub proof fn lemma_justify_rejection(c: u32)
    requires
        c > 2,
    ensures
        dec_justify_field(seq![("ju"@, dec_token(c as int))], "ju"@) == Err::<
            Option<crate::model::Justify>,
            DecodeError,
        >(DecodeError::UnrecognizedEnumValue),
{
    lemma_dec_token_value(c as int);
    let a = seq![("ju"@, dec_token(c as int))];
    assert(a.first() == ("ju"@, dec_token(c as int)));
}

/// Open-enum fallback: a font-style attribute holding any code decodes
/// without failing, an uncatalogued code to the default face.
pub proof fn lemma_font_style_acceptance(c: u32)
    ensures
        dec_font_style_field(seq![("fs"@, dec_token(c as int))], "fs"@) == Ok::<
            Option<crate::model::FontStyle>,
            DecodeError,
        >(Some(crate::codec::font_style_of_code(c))),
        c > 7 ==> dec_font_style_field(seq![("fs"@, dec_token(c as int))], "fs"@) == Ok::<
            Option<crate::model::FontStyle>,
            DecodeError,
        >(Some(crate::model::FontStyle::Default)),
{
    lemma_dec_token_value(c as int);
    let a = seq![("fs"@, dec_token(c as int))];
    assert(a.first() == ("fs"@, dec_token(c as int)));
}

/// The stripped text view holds no zero-width space at all.
pub proof fn lemma_strip_zwsp_clean(s: Seq<char>)
    ensures
        forall|i: int| 0 <= i < crate::text::strip_zwsp(s).len() ==> (#[trigger] crate::text::strip_zwsp(
            s,
        )[i]) != '\u{200B}',
    decreases s.len(),
{
    if s.len() > 0 {
        lemma_strip_zwsp_clean(s.drop_last());
        let t = crate::text::strip_zwsp(s.drop_last());
        if s.last() != '\u{200B}' {
            assert forall|i: int| 0 <= i < t.push(s.last()).len() implies (#[trigger] t.push(
                s.last(),
            )[i]) != '\u{200B}' by {
                if i < t.len() {
                    assert(t.push(s.last())[i] == t[i]);
                } else {
                    assert(t.push(s.last())[i] == s.last());
                }
            }
        }
    }
}


} // verus!
