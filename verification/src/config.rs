//! Controller configurations, their canonical fingerprints, and the
//! validated plan a connect operation derives from a configuration.
//!
//! The fingerprint is the pooling key. Inside the key every text field is
//! field-encoded — the separator ':' becomes "%3A" and '%' becomes "%25" —
//! so the key is injective over semantic field tuples with no proviso:
//! configurations with identical semantic fields produce identical keys,
//! and configurations that differ in any semantic field produce different
//! keys.

use vstd::prelude::*;

use crate::bytes::{
    copy_bytes, dec_digits, dec_val, is_dec_numeral, lemma_dec_digits_are_digits,
    lemma_dec_digits_injective, parse_u64, push_all, u64_to_dec,
};
use crate::errors::MaaError;

verus! {

/// Sentinel operation id the engine returns when a post fails.
pub const MAA_INVALID_ID: i64 = 0;

/// Engine status code: the operation has not started yet.
pub const MAA_STATUS_PENDING: i32 = 1000;

/// Engine status code: the operation is running.
pub const MAA_STATUS_RUNNING: i32 = 2000;

/// Engine status code: the operation finished successfully.
pub const MAA_STATUS_SUCCEEDED: i32 = 3000;

/// Gamepad kind the engine calls Xbox360; the default.
pub const MAA_GAMEPAD_TYPE_XBOX360: u64 = 1;

/// Gamepad kind the engine calls DualShock4.
pub const MAA_GAMEPAD_TYPE_DUALSHOCK4: u64 = 2;

/// Default desktop screencap method for gamepad controllers.
pub const MAA_WIN32_SCREENCAP_DXGI_DESKTOPDUP: u64 = 4;

/// Controller option key selecting the screenshot target short side.
pub const MAA_CTRL_OPTION_SCREENSHOT_TARGET_SHORT_SIDE: i32 = 2;

/// Default screenshot short side registered on every new controller.
pub const DEFAULT_SCREENSHOT_SHORT_SIDE: i32 = 720;

/// A controller configuration, as a command hands it in. The two method
/// fields of the device-address variant arrive as decimal strings so that a
/// JavaScript front end cannot lose precision on them.
#[allow(inconsistent_fields)]
pub enum ControllerConfig {
    Adb {
        adb_path: Vec<u8>,
        address: Vec<u8>,
        screencap_methods: Vec<u8>,
        input_methods: Vec<u8>,
        config: Vec<u8>,
    },
    Win32 { handle: u64, screencap_method: u64, mouse_method: u64, keyboard_method: u64 },
    Gamepad { handle: u64, gamepad_type: Option<Vec<u8>>, screencap_method: Option<u64> },
    PlayCover { address: Vec<u8> },
}

/// The separator byte of a fingerprint: ':'.
pub open spec fn sep() -> Seq<u8> {
    seq![0x3Au8]
}

/// "adb"
pub open spec fn tag_adb() -> Seq<u8> {
    seq![0x61u8, 0x64, 0x62]
}

/// "win32"
pub open spec fn tag_win32() -> Seq<u8> {
    seq![0x77u8, 0x69, 0x6E, 0x33, 0x32]
}

/// "gamepad"
pub open spec fn tag_gamepad() -> Seq<u8> {
    seq![0x67u8, 0x61, 0x6D, 0x65, 0x70, 0x61, 0x64]
}

/// "playcover"
pub open spec fn tag_playcover() -> Seq<u8> {
    seq![0x70u8, 0x6C, 0x61, 0x79, 0x63, 0x6F, 0x76, 0x65, 0x72]
}

/// "Xbox360", the default gamepad kind name used in fingerprints.
pub open spec fn xbox360_bytes() -> Seq<u8> {
    seq![0x58u8, 0x62, 0x6F, 0x78, 0x33, 0x36, 0x30]
}

/// One fingerprint field followed by the separator and the rest of the key.
pub open spec fn kf(x: Seq<u8>, rest: Seq<u8>) -> Seq<u8> {
    x + sep() + rest
}

/// The gamepad-kind name that enters the fingerprint: the field, or its
/// default when absent.
pub open spec fn gp_type_bytes(t: Option<Vec<u8>>) -> Seq<u8> {
    match t {
        Some(v) => v@,
        None => xbox360_bytes(),
    }
}

/// The screencap method a gamepad configuration resolves to: the field, or
/// the desktop-duplication default when absent — the same resolution the
/// connect plan uses, so an absent field and an explicit default, which
/// produce the same engine controller, share one fingerprint.
pub open spec fn gp_screencap(m: Option<u64>) -> u64 {
    match m {
        Some(v) => v,
        None => MAA_WIN32_SCREENCAP_DXGI_DESKTOPDUP,
    }
}

/// Field encoding of one byte: the separator and the escape byte become
/// three-byte escapes, every other byte is itself.
pub open spec fn esc_code(b: u8) -> Seq<u8> {
    if b == 0x3A {
        seq![0x25u8, 0x33, 0x41]
    } else if b == 0x25 {
        seq![0x25u8, 0x32, 0x35]
    } else {
        seq![b]
    }
}

/// Field encoding of a byte string: each byte through `esc_code`, so the
/// result never holds the separator and decodes back to exactly one input.
pub open spec fn esc_field(s: Seq<u8>) -> Seq<u8>
    decreases s.len(),
{
    if s.len() == 0 {
        Seq::empty()
    } else {
        esc_code(s.first()) + esc_field(s.drop_first())
    }
}

/// The canonical fingerprint of a configuration: the variant tag and each
/// semantic field, field-encoded, separated by ':'.
pub open spec fn spec_pool_key(c: ControllerConfig) -> Seq<u8> {
    match c {
        ControllerConfig::Adb { adb_path, address, screencap_methods, input_methods, config } => kf(
            tag_adb(),
            kf(
                esc_field(adb_path@),
                kf(
                    esc_field(address@),
                    kf(
                        esc_field(screencap_methods@),
                        kf(esc_field(input_methods@), esc_field(config@)),
                    ),
                ),
            ),
        ),
        ControllerConfig::Win32 { handle, screencap_method, mouse_method, keyboard_method } => kf(
            tag_win32(),
            kf(
                dec_digits(handle as nat),
                kf(
                    dec_digits(screencap_method as nat),
                    kf(dec_digits(mouse_method as nat), dec_digits(keyboard_method as nat)),
                ),
            ),
        ),
        ControllerConfig::Gamepad { handle, gamepad_type, screencap_method } => kf(
            tag_gamepad(),
            kf(
                dec_digits(handle as nat),
                kf(
                    esc_field(gp_type_bytes(gamepad_type)),
                    dec_digits(gp_screencap(screencap_method) as nat),
                ),
            ),
        ),
        ControllerConfig::PlayCover { address } => kf(tag_playcover(), esc_field(address@)),
    }
}

/// True when no byte of `s` is the separator.
pub open spec fn no_sep(s: Seq<u8>) -> bool {
    forall|i: int| 0 <= i < s.len() ==> #[trigger] s[i] != 0x3A
}

/// A field encoding never holds the separator byte.
proof fn lemma_esc_no_sep(s: Seq<u8>)
    ensures
        no_sep(esc_field(s)),
    decreases s.len(),
{
    if s.len() > 0 {
        lemma_esc_no_sep(s.drop_first());
        let code = esc_code(s.first());
        let rest = esc_field(s.drop_first());
        assert forall|i: int| 0 <= i < esc_field(s).len() implies #[trigger] esc_field(s)[i]
            != 0x3A by {
            if i < code.len() {
                assert(esc_field(s)[i] == code[i]);
            } else {
                assert(esc_field(s)[i] == rest[i - code.len()]);
            }
        }
    }
}

/// Equal prefixes cancel on the left of a concatenation.
proof fn lemma_concat_cancel(a: Seq<u8>, t1: Seq<u8>, t2: Seq<u8>)
    requires
        a + t1 == a + t2,
    ensures
        t1 == t2,
{
    assert((a + t1).len() == (a + t2).len());
    assert((a + t1).len() == a.len() + t1.len());
    assert((a + t2).len() == a.len() + t2.len());
    assert(t1.len() == t2.len());
    assert(t1 =~= t2) by {
        assert forall|i: int| 0 <= i < t1.len() implies t1[i] == t2[i] by {
            assert((a + t1)[a.len() + i] == t1[i]);
            assert((a + t2)[a.len() + i] == t2[i]);
        }
    }
}

/// Field encoding is injective: equal encodings come from equal fields.
proof fn lemma_esc_injective(s1: Seq<u8>, s2: Seq<u8>)
    requires
        esc_field(s1) == esc_field(s2),
    ensures
        s1 == s2,
    decreases s1.len(),
{
    if s1.len() == 0 {
        if s2.len() > 0 {
            assert(esc_field(s2).len() >= esc_code(s2.first()).len());
            assert(false);
        }
        assert(s1 =~= s2);
    } else if s2.len() == 0 {
        assert(esc_field(s1).len() >= esc_code(s1.first()).len());
        assert(false);
    } else {
        let b1 = s1.first();
        let b2 = s2.first();
        let e = esc_field(s1);
        let special1 = b1 == 0x3A || b1 == 0x25;
        let special2 = b2 == 0x3A || b2 == 0x25;
        assert(e[0] == esc_code(b1)[0]);
        assert(esc_field(s2)[0] == esc_code(b2)[0]);
        if special1 != special2 {
            // A plain byte is never the escape byte, so the first output
            // byte tells the two kinds apart.
            assert(false);
        }
        if special1 {
            assert(e[1] == esc_code(b1)[1]);
            assert(esc_field(s2)[1] == esc_code(b2)[1]);
            assert(b1 == b2);
        } else {
            assert(b1 == b2);
        }
        assert(esc_code(b1) == esc_code(b2));
        lemma_concat_cancel(esc_code(b1), esc_field(s1.drop_first()), esc_field(s2.drop_first()));
        lemma_esc_injective(s1.drop_first(), s2.drop_first());
        assert(s1.drop_first().len() == s2.drop_first().len());
        assert(s1.len() == s2.len());
        assert forall|i: int| 0 <= i < s1.len() implies s1[i] == s2[i] by {
            if i == 0 {
                assert(s1[0] == b1 && s2[0] == b2);
            } else {
                assert(s1.drop_first()[i - 1] == s1[i]);
                assert(s2.drop_first()[i - 1] == s2[i]);
            }
        }
        assert(s1 =~= s2);
    }
}

/// Semantic equality of two configurations: same variant, and the fields
/// that the fingerprint is built from agree (absent gamepad options count as
/// their defaults).
pub open spec fn same_semantics(a: ControllerConfig, b: ControllerConfig) -> bool {
    match (a, b) {
        (
            ControllerConfig::Adb {
                adb_path: p1,
                address: a1,
                screencap_methods: s1,
                input_methods: i1,
                config: c1,
            },
            ControllerConfig::Adb {
                adb_path: p2,
                address: a2,
                screencap_methods: s2,
                input_methods: i2,
                config: c2,
            },
        ) => p1@ == p2@ && a1@ == a2@ && s1@ == s2@ && i1@ == i2@ && c1@ == c2@,
        (
            ControllerConfig::Win32 {
                handle: h1,
                screencap_method: s1,
                mouse_method: m1,
                keyboard_method: k1,
            },
            ControllerConfig::Win32 {
                handle: h2,
                screencap_method: s2,
                mouse_method: m2,
                keyboard_method: k2,
            },
        ) => h1 == h2 && s1 == s2 && m1 == m2 && k1 == k2,
        (
            ControllerConfig::Gamepad { handle: h1, gamepad_type: t1, screencap_method: s1 },
            ControllerConfig::Gamepad { handle: h2, gamepad_type: t2, screencap_method: s2 },
        ) => h1 == h2 && gp_type_bytes(t1) == gp_type_bytes(t2) && gp_screencap(s1)
            == gp_screencap(s2),
        (ControllerConfig::PlayCover { address: a1 }, ControllerConfig::PlayCover { address: a2 }) => a1@
            == a2@,
        _ => false,
    }
}

/// Splitting at the first separator is unambiguous: if two field-plus-rest
/// encodings agree and neither field holds the separator, the fields agree
/// and the rests agree.
proof fn lemma_split_sep(x1: Seq<u8>, y1: Seq<u8>, x2: Seq<u8>, y2: Seq<u8>)
    requires
        no_sep(x1),
        no_sep(x2),
        kf(x1, y1) == kf(x2, y2),
    ensures
        x1 == x2,
        y1 == y2,
{
    let s = kf(x1, y1);
    assert(s.len() == x1.len() + 1 + y1.len());
    assert(s.len() == x2.len() + 1 + y2.len());
    assert(s[x1.len() as int] == 0x3A) by {
        assert((x1 + sep())[x1.len() as int] == 0x3A);
    }
    assert(s[x2.len() as int] == 0x3A) by {
        assert(kf(x2, y2)[x2.len() as int] == 0x3A) by {
            assert((x2 + sep())[x2.len() as int] == 0x3A);
        }
    }
    assert forall|i: int| 0 <= i < x1.len() implies s[i] != 0x3A by {
        assert((x1 + sep())[i] == x1[i]);
    }
    assert forall|i: int| 0 <= i < x2.len() implies s[i] != 0x3A by {
        assert(kf(x2, y2)[i] == x2[i]) by {
            assert((x2 + sep())[i] == x2[i]);
        }
    }
    if x1.len() < x2.len() {
        assert(s[x1.len() as int] != 0x3A);
        assert(false);
    }
    if x2.len() < x1.len() {
        assert(s[x2.len() as int] != 0x3A);
        assert(false);
    }
    assert(x1 =~= x2) by {
        assert forall|i: int| 0 <= i < x1.len() implies x1[i] == x2[i] by {
            assert((x1 + sep())[i] == x1[i]);
            assert((x2 + sep())[i] == x2[i]);
            assert(kf(x1, y1)[i] == x1[i]);
            assert(kf(x2, y2)[i] == x2[i]);
        }
    }
    assert(y1 =~= y2) by {
        assert forall|i: int| 0 <= i < y1.len() implies y1[i] == y2[i] by {
            assert(kf(x1, y1)[x1.len() + 1 + i] == y1[i]);
            assert(kf(x2, y2)[x2.len() + 1 + i] == y2[i]);
        }
    }
}

/// A decimal rendering never holds the separator byte.
proof fn lemma_dec_digits_no_sep(n: nat)
    ensures
        no_sep(dec_digits(n)),
{
    lemma_dec_digits_are_digits(n);
}

/// The first byte of a fingerprint is the first byte of its variant tag.
proof fn lemma_key_first_byte(x: Seq<u8>, rest: Seq<u8>)
    requires
        x.len() > 0,
    ensures
        kf(x, rest).len() > 0,
        kf(x, rest)[0] == x[0],
{
    assert((x + sep())[0] == x[0]);
}

/// Identical semantic fields give identical fingerprints: the fingerprint is
/// a pure function of the semantic field tuple.
pub proof fn lemma_pool_key_pure(a: ControllerConfig, b: ControllerConfig)
    requires
        same_semantics(a, b),
    ensures
        spec_pool_key(a) == spec_pool_key(b),
{
}

/// Fingerprints are injective over semantic field tuples: two configurations
/// whose fingerprints agree have the same variant and the same semantic
/// fields.
pub proof fn lemma_pool_key_injective(a: ControllerConfig, b: ControllerConfig)
    requires
        spec_pool_key(a) == spec_pool_key(b),
    ensures
        same_semantics(a, b),
{
    // The variant tags start with distinct bytes, so equal keys mean equal
    // variants.
    let fa = first_tag_byte(a);
    let fb = first_tag_byte(b);
    lemma_first_byte(a);
    lemma_first_byte(b);
    assert(fa == fb);
    match (a, b) {
        (
            ControllerConfig::Adb {
                adb_path: p1,
                address: a1,
                screencap_methods: s1,
                input_methods: i1,
                config: c1,
            },
            ControllerConfig::Adb {
                adb_path: p2,
                address: a2,
                screencap_methods: s2,
                input_methods: i2,
                config: c2,
            },
        ) => {
            lemma_esc_no_sep(p1@);
            lemma_esc_no_sep(p2@);
            lemma_esc_no_sep(a1@);
            lemma_esc_no_sep(a2@);
            lemma_esc_no_sep(s1@);
            lemma_esc_no_sep(s2@);
            lemma_esc_no_sep(i1@);
            lemma_esc_no_sep(i2@);
            lemma_split_sep(
                tag_adb(),
                kf(
                    esc_field(p1@),
                    kf(esc_field(a1@), kf(esc_field(s1@), kf(esc_field(i1@), esc_field(c1@)))),
                ),
                tag_adb(),
                kf(
                    esc_field(p2@),
                    kf(esc_field(a2@), kf(esc_field(s2@), kf(esc_field(i2@), esc_field(c2@)))),
                ),
            );
            lemma_split_sep(
                esc_field(p1@),
                kf(esc_field(a1@), kf(esc_field(s1@), kf(esc_field(i1@), esc_field(c1@)))),
                esc_field(p2@),
                kf(esc_field(a2@), kf(esc_field(s2@), kf(esc_field(i2@), esc_field(c2@)))),
            );
            lemma_split_sep(
                esc_field(a1@),
                kf(esc_field(s1@), kf(esc_field(i1@), esc_field(c1@))),
                esc_field(a2@),
                kf(esc_field(s2@), kf(esc_field(i2@), esc_field(c2@))),
            );
            lemma_split_sep(
                esc_field(s1@),
                kf(esc_field(i1@), esc_field(c1@)),
                esc_field(s2@),
                kf(esc_field(i2@), esc_field(c2@)),
            );
            lemma_split_sep(esc_field(i1@), esc_field(c1@), esc_field(i2@), esc_field(c2@));
            lemma_esc_injective(p1@, p2@);
            lemma_esc_injective(a1@, a2@);
            lemma_esc_injective(s1@, s2@);
            lemma_esc_injective(i1@, i2@);
            lemma_esc_injective(c1@, c2@);
        },
        (
            ControllerConfig::Win32 {
                handle: h1,
                screencap_method: s1,
                mouse_method: m1,
                keyboard_method: k1,
            },
            ControllerConfig::Win32 {
                handle: h2,
                screencap_method: s2,
                mouse_method: m2,
                keyboard_method: k2,
            },
        ) => {
            lemma_dec_digits_no_sep(h1 as nat);
            lemma_dec_digits_no_sep(h2 as nat);
            lemma_dec_digits_no_sep(s1 as nat);
            lemma_dec_digits_no_sep(s2 as nat);
            lemma_dec_digits_no_sep(m1 as nat);
            lemma_dec_digits_no_sep(m2 as nat);
            lemma_split_sep(
                tag_win32(),
                kf(
                    dec_digits(h1 as nat),
                    kf(dec_digits(s1 as nat), kf(dec_digits(m1 as nat), dec_digits(k1 as nat))),
                ),
                tag_win32(),
                kf(
                    dec_digits(h2 as nat),
                    kf(dec_digits(s2 as nat), kf(dec_digits(m2 as nat), dec_digits(k2 as nat))),
                ),
            );
            lemma_split_sep(
                dec_digits(h1 as nat),
                kf(dec_digits(s1 as nat), kf(dec_digits(m1 as nat), dec_digits(k1 as nat))),
                dec_digits(h2 as nat),
                kf(dec_digits(s2 as nat), kf(dec_digits(m2 as nat), dec_digits(k2 as nat))),
            );
            lemma_split_sep(
                dec_digits(s1 as nat),
                kf(dec_digits(m1 as nat), dec_digits(k1 as nat)),
                dec_digits(s2 as nat),
                kf(dec_digits(m2 as nat), dec_digits(k2 as nat)),
            );
            lemma_split_sep(
                dec_digits(m1 as nat),
                dec_digits(k1 as nat),
                dec_digits(m2 as nat),
                dec_digits(k2 as nat),
            );
            lemma_dec_digits_injective(h1 as nat, h2 as nat);
            lemma_dec_digits_injective(s1 as nat, s2 as nat);
            lemma_dec_digits_injective(m1 as nat, m2 as nat);
            lemma_dec_digits_injective(k1 as nat, k2 as nat);
        },
        (
            ControllerConfig::Gamepad { handle: h1, gamepad_type: t1, screencap_method: s1 },
            ControllerConfig::Gamepad { handle: h2, gamepad_type: t2, screencap_method: s2 },
        ) => {
            let d1 = gp_screencap(s1) as nat;
            let d2 = gp_screencap(s2) as nat;
            lemma_dec_digits_no_sep(h1 as nat);
            lemma_dec_digits_no_sep(h2 as nat);
            lemma_esc_no_sep(gp_type_bytes(t1));
            lemma_esc_no_sep(gp_type_bytes(t2));
            lemma_split_sep(
                tag_gamepad(),
                kf(dec_digits(h1 as nat), kf(esc_field(gp_type_bytes(t1)), dec_digits(d1))),
                tag_gamepad(),
                kf(dec_digits(h2 as nat), kf(esc_field(gp_type_bytes(t2)), dec_digits(d2))),
            );
            lemma_split_sep(
                dec_digits(h1 as nat),
                kf(esc_field(gp_type_bytes(t1)), dec_digits(d1)),
                dec_digits(h2 as nat),
                kf(esc_field(gp_type_bytes(t2)), dec_digits(d2)),
            );
            lemma_split_sep(
                esc_field(gp_type_bytes(t1)),
                dec_digits(d1),
                esc_field(gp_type_bytes(t2)),
                dec_digits(d2),
            );
            lemma_esc_injective(gp_type_bytes(t1), gp_type_bytes(t2));
            lemma_dec_digits_injective(h1 as nat, h2 as nat);
            lemma_dec_digits_injective(d1, d2);
        },
        (ControllerConfig::PlayCover { address: a1 }, ControllerConfig::PlayCover { address: a2 }) => {
            lemma_split_sep(tag_playcover(), esc_field(a1@), tag_playcover(), esc_field(a2@));
            lemma_esc_injective(a1@, a2@);
        },
        _ => {
            assert(false);
        },
    }
}

/// The first byte of the variant's tag.
spec fn first_tag_byte(c: ControllerConfig) -> u8 {
    match c {
        ControllerConfig::Adb { .. } => 0x61,
        ControllerConfig::Win32 { .. } => 0x77,
        ControllerConfig::Gamepad { .. } => 0x67,
        ControllerConfig::PlayCover { .. } => 0x70,
    }
}

/// A fingerprint starts with its variant's first tag byte.
proof fn lemma_first_byte(c: ControllerConfig)
    ensures
        spec_pool_key(c).len() > 0,
        spec_pool_key(c)[0] == first_tag_byte(c),
{
    match c {
        ControllerConfig::Adb { adb_path, address, screencap_methods, input_methods, config } => {
            lemma_key_first_byte(
                tag_adb(),
                kf(
                    esc_field(adb_path@),
                    kf(
                        esc_field(address@),
                        kf(
                            esc_field(screencap_methods@),
                            kf(esc_field(input_methods@), esc_field(config@)),
                        ),
                    ),
                ),
            );
        },
        ControllerConfig::Win32 { handle, screencap_method, mouse_method, keyboard_method } => {
            lemma_key_first_byte(
                tag_win32(),
                kf(
                    dec_digits(handle as nat),
                    kf(
                        dec_digits(screencap_method as nat),
                        kf(dec_digits(mouse_method as nat), dec_digits(keyboard_method as nat)),
                    ),
                ),
            );
        },
        ControllerConfig::Gamepad { handle, gamepad_type, screencap_method } => {
            lemma_key_first_byte(
                tag_gamepad(),
                kf(
                    dec_digits(handle as nat),
                    kf(
                        esc_field(gp_type_bytes(gamepad_type)),
                        dec_digits(gp_screencap(screencap_method) as nat),
                    ),
                ),
            );
        },
        ControllerConfig::PlayCover { address } => {
            lemma_key_first_byte(tag_playcover(), esc_field(address@));
        },
    }
}

/// Appends one `u64` in decimal to the key being built.
fn push_dec(r: &mut Vec<u8>, n: u64)
    ensures
        final(r)@ == old(r)@ + dec_digits(n as nat),
{
    let d = u64_to_dec(n);
    push_all(r, &d);
}

/// Appends the field encoding of `field` to the key being built.
fn push_escaped(r: &mut Vec<u8>, field: &Vec<u8>)
    ensures
        final(r)@ == old(r)@ + esc_field(field@),
{
    let mut i: usize = 0;
    proof {
        assert(field@.skip(0) =~= field@);
    }
    while i < field.len()
        invariant
            0 <= i <= field@.len(),
            old(r)@ + esc_field(field@) =~= r@ + esc_field(field@.skip(i as int)),
        decreases field@.len() - i,
    {
        let b = field[i];
        let ghost rest = field@.skip(i as int);
        proof {
            assert(rest[0] == field@[i as int]);
            assert(rest.drop_first() =~= field@.skip(i + 1));
            assert(esc_field(rest) == esc_code(b) + esc_field(field@.skip(i + 1)));
        }
        if b == 0x3A {
            r.push(0x25);
            r.push(0x33);
            r.push(0x41);
        } else if b == 0x25 {
            r.push(0x25);
            r.push(0x32);
            r.push(0x35);
        } else {
            r.push(b);
        }
        proof {
            assert(old(r)@ + esc_field(field@) =~= r@ + esc_field(field@.skip(i + 1)));
        }
        i = i + 1;
    }
    proof {
        assert(esc_field(field@.skip(field@.len() as int)) =~= Seq::<u8>::empty());
        assert(final(r)@ =~= old(r)@ + esc_field(field@));
    }
}

/// A field free of the separator and the escape byte encodes to itself.
proof fn lemma_esc_plain(s: Seq<u8>)
    requires
        forall|i: int| 0 <= i < s.len() ==> #[trigger] s[i] != 0x3A && s[i] != 0x25,
    ensures
        esc_field(s) == s,
    decreases s.len(),
{
    if s.len() > 0 {
        assert(s[0] != 0x3A && s[0] != 0x25);
        assert(forall|i: int|
            0 <= i < s.drop_first().len() ==> #[trigger] s.drop_first()[i] != 0x3A
                && s.drop_first()[i] != 0x25);
        lemma_esc_plain(s.drop_first());
        assert(esc_field(s) =~= s);
    } else {
        assert(esc_field(s) =~= s);
    }
}

/// Builds the key of a device-address configuration.
fn pool_key_adb(
    adb_path: &Vec<u8>,
    address: &Vec<u8>,
    screencap_methods: &Vec<u8>,
    input_methods: &Vec<u8>,
    config: &Vec<u8>,
) -> (r: Vec<u8>)
    ensures
        r@ == kf(
            tag_adb(),
            kf(
                esc_field(adb_path@),
                kf(
                    esc_field(address@),
                    kf(
                        esc_field(screencap_methods@),
                        kf(esc_field(input_methods@), esc_field(config@)),
                    ),
                ),
            ),
        ),
{
    let mut r: Vec<u8> = Vec::new();
    r.push(0x61);
    r.push(0x64);
    r.push(0x62);
    r.push(0x3A);
    push_escaped(&mut r, adb_path);
    r.push(0x3A);
    push_escaped(&mut r, address);
    r.push(0x3A);
    push_escaped(&mut r, screencap_methods);
    r.push(0x3A);
    push_escaped(&mut r, input_methods);
    r.push(0x3A);
    push_escaped(&mut r, config);
    assert(r@ =~= kf(
        tag_adb(),
        kf(
            esc_field(adb_path@),
            kf(
                esc_field(address@),
                kf(
                    esc_field(screencap_methods@),
                    kf(esc_field(input_methods@), esc_field(config@)),
                ),
            ),
        ),
    ));
    r
}

/// Builds the key of a desktop-window configuration.
fn pool_key_win32(handle: u64, screencap_method: u64, mouse_method: u64, keyboard_method: u64) -> (r:
    Vec<u8>)
    ensures
        r@ == kf(
            tag_win32(),
            kf(
                dec_digits(handle as nat),
                kf(
                    dec_digits(screencap_method as nat),
                    kf(dec_digits(mouse_method as nat), dec_digits(keyboard_method as nat)),
                ),
            ),
        ),
{
    let mut r: Vec<u8> = Vec::new();
    r.push(0x77);
    r.push(0x69);
    r.push(0x6E);
    r.push(0x33);
    r.push(0x32);
    r.push(0x3A);
    push_dec(&mut r, handle);
    r.push(0x3A);
    push_dec(&mut r, screencap_method);
    r.push(0x3A);
    push_dec(&mut r, mouse_method);
    r.push(0x3A);
    push_dec(&mut r, keyboard_method);
    assert(r@ =~= kf(
        tag_win32(),
        kf(
            dec_digits(handle as nat),
            kf(
                dec_digits(screencap_method as nat),
                kf(dec_digits(mouse_method as nat), dec_digits(keyboard_method as nat)),
            ),
        ),
    ));
    r
}

/// Builds the key of a game-controller configuration.
fn pool_key_gamepad(handle: u64, gamepad_type: &Option<Vec<u8>>, screencap_method: &Option<u64>) -> (r:
    Vec<u8>)
    ensures
        r@ == kf(
            tag_gamepad(),
            kf(
                dec_digits(handle as nat),
                kf(
                    esc_field(gp_type_bytes(*gamepad_type)),
                    dec_digits(gp_screencap(*screencap_method) as nat),
                ),
            ),
        ),
{
    let mut r: Vec<u8> = Vec::new();
    r.push(0x67);
    r.push(0x61);
    r.push(0x6D);
    r.push(0x65);
    r.push(0x70);
    r.push(0x61);
    r.push(0x64);
    r.push(0x3A);
    push_dec(&mut r, handle);
    r.push(0x3A);
    match gamepad_type {
        Some(t) => {
            push_escaped(&mut r, t);
        },
        None => {
            // "Xbox360" holds neither the separator nor the escape byte, so
            // its field encoding is itself.
            r.push(0x58);
            r.push(0x62);
            r.push(0x6F);
            r.push(0x78);
            r.push(0x33);
            r.push(0x36);
            r.push(0x30);
            proof {
                lemma_esc_plain(xbox360_bytes());
            }
        },
    }
    r.push(0x3A);
    let m: u64 = match screencap_method {
        Some(m) => *m,
        None => MAA_WIN32_SCREENCAP_DXGI_DESKTOPDUP,
    };
    push_dec(&mut r, m);
    assert(r@ =~= kf(
        tag_gamepad(),
        kf(
            dec_digits(handle as nat),
            kf(
                esc_field(gp_type_bytes(*gamepad_type)),
                dec_digits(gp_screencap(*screencap_method) as nat),
            ),
        ),
    ));
    r
}

/// Builds the key of an address-only configuration.
fn pool_key_playcover(address: &Vec<u8>) -> (r: Vec<u8>)
    ensures
        r@ == kf(tag_playcover(), esc_field(address@)),
{
    let mut r: Vec<u8> = Vec::new();
    r.push(0x70);
    r.push(0x6C);
    r.push(0x61);
    r.push(0x79);
    r.push(0x63);
    r.push(0x6F);
    r.push(0x76);
    r.push(0x65);
    r.push(0x72);
    r.push(0x3A);
    push_escaped(&mut r, address);
    assert(r@ =~= kf(tag_playcover(), esc_field(address@)));
    r
}

impl ControllerConfig {
    /// The pooling key of this configuration: identical semantic fields give
    /// identical keys.
    pub fn pool_key(&self) -> (r: Vec<u8>)
        ensures
            r@ == spec_pool_key(*self),
    {
        match self {
            ControllerConfig::Adb { adb_path, address, screencap_methods, input_methods, config } => {
                pool_key_adb(adb_path, address, screencap_methods, input_methods, config)
            },
            ControllerConfig::Win32 { handle, screencap_method, mouse_method, keyboard_method } => {
                pool_key_win32(*handle, *screencap_method, *mouse_method, *keyboard_method)
            },
            ControllerConfig::Gamepad { handle, gamepad_type, screencap_method } => {
                pool_key_gamepad(*handle, gamepad_type, screencap_method)
            },
            ControllerConfig::PlayCover { address } => pool_key_playcover(address),
        }
    }
}

/// The validated parameters a connect operation derives from a
/// configuration: numeric strings parsed, defaults resolved.
pub enum ConnectPlan {
    Adb {
        adb_path: Vec<u8>,
        address: Vec<u8>,
        screencap_methods: u64,
        input_methods: u64,
        config: Vec<u8>,
        agent_path: Vec<u8>,
    },
    Win32 { handle: u64, screencap_method: u64, mouse_method: u64, keyboard_method: u64 },
    Gamepad { handle: u64, gamepad_type: u64, screencap_method: u64 },
}

/// True when the gamepad-kind name selects DualShock4: "DualShock4" or "DS4".
pub open spec fn is_dualshock_name(s: Seq<u8>) -> bool {
    s == seq![0x44u8, 0x75, 0x61, 0x6C, 0x53, 0x68, 0x6F, 0x63, 0x6B, 0x34] || s == seq![
        0x44u8,
        0x53,
        0x34,
    ]
}

/// Derives the engine-facing creation parameters from a configuration.
///
/// The device-address variant is accepted exactly when both method fields are
/// well-formed decimal numerals that fit in 64 bits; the desktop-window
/// variant is always accepted; the game-controller variant resolves its
/// optional kind (DualShock4 for "DualShock4" or "DS4", Xbox360 otherwise)
/// and its optional screencap method (desktop-duplication default); the
/// address-only variant is valid on one platform only and this build refuses
/// it.
pub fn connect_plan(config: &ControllerConfig, agent_path: Option<&Vec<u8>>) -> (r: Result<
    ConnectPlan,
    MaaError,
>)
    ensures
        match *config {
            ControllerConfig::Adb {
                adb_path: ref p,
                address: ref a,
                screencap_methods: ref s,
                input_methods: ref i,
                config: ref c,
            } => {
                if is_dec_numeral(s@) && dec_val(s@) <= u64::MAX && is_dec_numeral(i@) && dec_val(i@)
                    <= u64::MAX {
                    r matches Ok(ConnectPlan::Adb {
                        adb_path: ref rp,
                        address: ref ra,
                        screencap_methods: rs,
                        input_methods: ri,
                        config: ref rc,
                        agent_path: ref rg,
                    }) && rp@ == p@ && ra@ == a@ && rs as nat == dec_val(s@) && ri as nat == dec_val(
                        i@,
                    ) && rc@ == c@ && rg@ == (match agent_path {
                        Some(g) => g@,
                        None => Seq::<u8>::empty(),
                    })
                } else {
                    r matches Err(e) && e == MaaError::InvalidConfig
                }
            },
            ControllerConfig::Win32 { handle, screencap_method, mouse_method, keyboard_method } => r
                matches Ok(ConnectPlan::Win32 {
                handle: rh,
                screencap_method: rs,
                mouse_method: rm,
                keyboard_method: rk,
            }) && rh == handle && rs == screencap_method && rm == mouse_method && rk
                == keyboard_method,
            ControllerConfig::Gamepad { handle, gamepad_type: ref t, screencap_method: s } => r
                matches Ok(ConnectPlan::Gamepad {
                handle: rh,
                gamepad_type: rt,
                screencap_method: rs,
            }) && rh == handle && rt == (if is_dualshock_name(gp_type_bytes(*t)) {
                MAA_GAMEPAD_TYPE_DUALSHOCK4
            } else {
                MAA_GAMEPAD_TYPE_XBOX360
            }) && rs == gp_screencap(s),
            ControllerConfig::PlayCover { .. } => r matches Err(e) && e == MaaError::InvalidConfig,
        },
{
    match config {
        ControllerConfig::Adb { adb_path, address, screencap_methods, input_methods, config } => {
            let sm = match parse_u64(screencap_methods) {
                Some(v) => v,
                None => {
                    return Err(MaaError::InvalidConfig);
                },
            };
            let im = match parse_u64(input_methods) {
                Some(v) => v,
                None => {
                    return Err(MaaError::InvalidConfig);
                },
            };
            let agent = match agent_path {
                Some(g) => copy_bytes(g),
                None => Vec::new(),
            };
            Ok(
                ConnectPlan::Adb {
                    adb_path: copy_bytes(adb_path),
                    address: copy_bytes(address),
                    screencap_methods: sm,
                    input_methods: im,
                    config: copy_bytes(config),
                    agent_path: agent,
                },
            )
        },
        ControllerConfig::Win32 { handle, screencap_method, mouse_method, keyboard_method } => Ok(
            ConnectPlan::Win32 {
                handle: *handle,
                screencap_method: *screencap_method,
                mouse_method: *mouse_method,
                keyboard_method: *keyboard_method,
            },
        ),
        ControllerConfig::Gamepad { handle, gamepad_type, screencap_method } => {
            let is_ds4 = match gamepad_type {
                Some(t) => {
                    let name_ds4_long: Vec<u8> = dualshock_long_name();
                    let name_ds4_short: Vec<u8> = dualshock_short_name();
                    let long = crate::bytes::bytes_eq(t, &name_ds4_long);
                    let short = crate::bytes::bytes_eq(t, &name_ds4_short);
                    long || short
                },
                None => {
                    assert(!is_dualshock_name(xbox360_bytes()));
                    false
                },
            };
            let gp: u64 = if is_ds4 {
                MAA_GAMEPAD_TYPE_DUALSHOCK4
            } else {
                MAA_GAMEPAD_TYPE_XBOX360
            };
            let sc: u64 = match screencap_method {
                Some(m) => *m,
                None => MAA_WIN32_SCREENCAP_DXGI_DESKTOPDUP,
            };
            Ok(ConnectPlan::Gamepad { handle: *handle, gamepad_type: gp, screencap_method: sc })
        },
        ControllerConfig::PlayCover { .. } => Err(MaaError::InvalidConfig),
    }
}

/// "DualShock4"
fn dualshock_long_name() -> (r: Vec<u8>)
    ensures
        r@ == seq![0x44u8, 0x75, 0x61, 0x6C, 0x53, 0x68, 0x6F, 0x63, 0x6B, 0x34],
{
    let mut v: Vec<u8> = Vec::new();
    v.push(0x44);
    v.push(0x75);
    v.push(0x61);
    v.push(0x6C);
    v.push(0x53);
    v.push(0x68);
    v.push(0x6F);
    v.push(0x63);
    v.push(0x6B);
    v.push(0x34);
    assert(v@ =~= seq![0x44u8, 0x75, 0x61, 0x6C, 0x53, 0x68, 0x6F, 0x63, 0x6B, 0x34]);
    v
}

/// "DS4"
fn dualshock_short_name() -> (r: Vec<u8>)
    ensures
        r@ == seq![0x44u8, 0x53, 0x34],
{
    let mut v: Vec<u8> = Vec::new();
    v.push(0x44);
    v.push(0x53);
    v.push(0x34);
    assert(v@ =~= seq![0x44u8, 0x53, 0x34]);
    v
}

} // verus!
