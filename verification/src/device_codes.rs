//! One-time device pairing codes.
//!
//! The operator mints a short random code from a curated unambiguous
//! alphabet; a device exchanges it for a durable device token. Codes are
//! never invalidated individually — the expiry sweep is the only cleanup, so
//! a code stays exchangeable until it ages out. Exchange compares the
//! presented code against every live code in constant time.

use vstd::prelude::*;
use vstd::string::StringSliceAdditionalSpecFns;
use crate::auth::{device_sub_spec, jwt_of, DeviceTokenClaims};
use crate::config::ServerConfig;
use crate::{DEVICE_CODE_EXPIRATION, DEVICE_CODE_LEN};

verus! {

/// Mathematical model of one pairing code.
#[verifier::ext_equal]
pub struct DeviceCodeModel {
    pub code: Seq<u8>,
    pub date_created: int,
}

/// One pairing code and when it was minted.
pub struct DeviceCode {
    pub code: Vec<u8>,
    pub date_created: i64,
}

impl View for DeviceCode {
    type V = DeviceCodeModel;

    open spec fn view(&self) -> DeviceCodeModel {
        DeviceCodeModel { code: self.code@, date_created: self.date_created as int }
    }
}

/// The live pairing codes.
pub struct DeviceCodeStore {
    codes: Vec<DeviceCode>,
}

impl View for DeviceCodeStore {
    type V = Seq<DeviceCodeModel>;

    closed spec fn view(&self) -> Seq<DeviceCodeModel> {
        self.codes@.map_values(|c: DeviceCode| c@)
    }
}

/// Whether a byte belongs to the pairing-code alphabet: the lowercase
/// letters but `i`, `l` and `o`, the uppercase letters but `I` and `O`, and
/// the digits 2 through 9 (ASCII 97..=122, 65..=90 and 50..=57, with the
/// ambiguous glyphs left out).
pub open spec fn is_code_byte(b: u8) -> bool {
    ||| (97u8 <= b <= 122u8 && b != 105u8 && b != 108u8 && b != 111u8)
    ||| (65u8 <= b <= 90u8 && b != 73u8 && b != 79u8)
    ||| (50u8 <= b <= 57u8)
}

/// The pairing-code alphabet, in order.
fn device_code_charset() -> (r: Vec<u8>)
    ensures
        0 < r@.len(),
        forall|i: int| 0 <= i < r@.len() ==> is_code_byte(#[trigger] r@[i]),
{
    let mut v: Vec<u8> = Vec::new();
    let mut b: u8 = 97u8;
    while b <= 122u8
        invariant
            97u8 <= b <= 122u8 + 1,
            97u8 < b ==> 0 < v@.len(),
            forall|i: int| 0 <= i < v@.len() ==> is_code_byte(#[trigger] v@[i]),
        decreases 122u8 + 1 - b,
    {
        if b != 105u8 && b != 108u8 && b != 111u8 {
            v.push(b);
        }
        b = b + 1;
    }
    let mut b: u8 = 65u8;
    while b <= 90u8
        invariant
            65u8 <= b <= 90u8 + 1,
            0 < v@.len(),
            forall|i: int| 0 <= i < v@.len() ==> is_code_byte(#[trigger] v@[i]),
        decreases 90u8 + 1 - b,
    {
        if b != 73u8 && b != 79u8 {
            v.push(b);
        }
        b = b + 1;
    }
    let mut b: u8 = 50u8;
    while b <= 57u8
        invariant
            50u8 <= b <= 57u8 + 1,
            0 < v@.len(),
            forall|i: int| 0 <= i < v@.len() ==> is_code_byte(#[trigger] v@[i]),
        decreases 57u8 + 1 - b,
    {
        v.push(b);
        b = b + 1;
    }
    v
}

/// Relies on rand::Rng::gen_range over rand::rngs::OsRng: an index drawn
/// below the bound; nothing is promised of its distribution.
#[verifier::external_body]
fn random_below(n: usize) -> (r: usize)
    requires
        0 < n,
    ensures
        r < n,
{
    rand::Rng::gen_range(&mut rand::rngs::OsRng, 0..n)
}

/// Relies on ring::constant_time::verify_slices_are_equal: returns whether
/// the two byte slices are equal, in constant time.
#[verifier::external_body]
fn ct_eq(a: &[u8], b: &[u8]) -> (r: bool)
    ensures
        r == (a@ == b@),
{
    ring::constant_time::verify_slices_are_equal(a, b).is_ok()
}

/// The codes that survive an expiry sweep: exactly those younger than the
/// validity window, in order.
pub open spec fn sweep_spec(codes: Seq<DeviceCodeModel>, now: int) -> Seq<DeviceCodeModel>
    decreases codes.len(),
{
    if codes.len() == 0 {
        Seq::empty()
    } else if codes[0].date_created < now - DEVICE_CODE_EXPIRATION {
        sweep_spec(codes.drop_first(), now)
    } else {
        seq![codes[0]] + sweep_spec(codes.drop_first(), now)
    }
}

impl DeviceCodeStore {
    /// A store holding no codes.
    pub fn new() -> (r: DeviceCodeStore)
        ensures
            r@ =~= Seq::<DeviceCodeModel>::empty(),
    {
        DeviceCodeStore { codes: Vec::new() }
    }

    /// Every live code, in creation order, for persistence.
    pub fn codes(&self) -> (r: &Vec<DeviceCode>)
        ensures
            r@.map_values(|c: DeviceCode| c@) == self@,
    {
        &self.codes
    }

    /// A store over previously persisted codes.
    pub fn from_codes(codes: Vec<DeviceCode>) -> (r: DeviceCodeStore)
        ensures
            r@ == codes@.map_values(|c: DeviceCode| c@),
    {
        DeviceCodeStore { codes }
    }

    /// Mint one pairing code: a fresh random word over the unambiguous
    /// alphabet, remembered with its creation time and returned for display.
    pub fn new_device_code(&mut self, now: i64) -> (r: Vec<u8>)
        ensures
            r@.len() == DEVICE_CODE_LEN,
            forall|i: int| 0 <= i < r@.len() ==> is_code_byte(#[trigger] r@[i]),
            final(self)@ == old(self)@.push(DeviceCodeModel { code: r@, date_created: now as int }),
    {
        let charset = device_code_charset();
        let mut code: Vec<u8> = Vec::new();
        let mut i: usize = 0;
        while i < DEVICE_CODE_LEN
            invariant
                i <= DEVICE_CODE_LEN,
                code@.len() == i,
                forall|j: int| 0 <= j < code@.len() ==> is_code_byte(#[trigger] code@[j]),
                0 < charset@.len(),
                forall|j: int| 0 <= j < charset@.len() ==> is_code_byte(#[trigger] charset@[j]),
            decreases DEVICE_CODE_LEN - i,
        {
            let idx = random_below(charset.len());
            code.push(charset[idx]);
            i = i + 1;
        }
        let copy = code.clone();
        proof {
            assert(copy@ =~= code@);
        }
        let ghost pre = self@;
        self.codes.push(DeviceCode { code, date_created: now });
        proof {
            assert(final(self)@ =~~= pre.push(DeviceCodeModel { code: copy@, date_created: now as int }));
        }
        copy
    }

    /// Drop every code that has outlived the validity window.
    pub fn sweep_expired(&mut self, now: i64)
        requires
            i64::MIN + DEVICE_CODE_EXPIRATION <= now,
        ensures
            final(self)@ == sweep_spec(old(self)@, now as int),
    {
        let ghost orig = self@;
        let cutoff = now - DEVICE_CODE_EXPIRATION;
        let mut rest: Vec<DeviceCode> = Vec::new();
        core::mem::swap(&mut self.codes, &mut rest);
        proof {
            assert(self@ + sweep_spec(rest@.map_values(|c: DeviceCode| c@), now as int)
                =~~= sweep_spec(orig, now as int));
        }
        while rest.len() > 0
            invariant
                self@ + sweep_spec(rest@.map_values(|c: DeviceCode| c@), now as int)
                    =~~= sweep_spec(orig, now as int),
                cutoff == now - DEVICE_CODE_EXPIRATION,
            decreases rest.len(),
        {
            let ghost rem_pre = rest@.map_values(|c: DeviceCode| c@);
            let c = rest.remove(0);
            proof {
                assert(rest@.map_values(|cc: DeviceCode| cc@) =~~= rem_pre.drop_first());
                assert(rem_pre[0] == c@);
            }
            if c.date_created >= cutoff {
                let ghost self_pre = self@;
                self.codes.push(c);
                proof {
                    assert(self_pre.push(rem_pre[0]) + sweep_spec(rem_pre.drop_first(), now as int)
                        =~~= self_pre + (seq![rem_pre[0]] + sweep_spec(rem_pre.drop_first(), now as int)));
                }
            }
        }
        proof {
            assert(sweep_spec(rest@.map_values(|c: DeviceCode| c@), now as int)
                =~~= Seq::<DeviceCodeModel>::empty());
            assert(final(self)@ =~~= sweep_spec(orig, now as int));
        }
    }

    /// Exchange a presented pairing code for a device token.
    ///
    /// Expired codes are swept first; the presented code is then compared in
    /// constant time against every remaining one. A match mints a durable
    /// device token for the presenting device; otherwise the exchange is
    /// refused. The matched code is not consumed — expiry is its only
    /// cleanup.
    pub fn register_new_device(
        &mut self,
        code: &str,
        device_desc: String,
        device_id: String,
        server_config: &ServerConfig,
        now: i64,
    ) -> (r: Option<String>)
        requires
            i64::MIN + DEVICE_CODE_EXPIRATION <= now,
        ensures
            final(self)@ == sweep_spec(old(self)@, now as int),
            r matches Some(t) ==> (exists|i: int| 0 <= i < final(self)@.len()
                    && (#[trigger] final(self)@[i]).code == code.spec_bytes())
                && t@ == jwt_of(device_sub_spec(), device_id@, device_desc@, 0, Seq::empty(), 0,
                    server_config.jwt_secret_key@),
            r is None ==> forall|i: int| 0 <= i < final(self)@.len()
                ==> (#[trigger] final(self)@[i]).code != code.spec_bytes(),
    {
        self.sweep_expired(now);
        let presented = code.as_bytes();
        let mut k: usize = 0;
        let mut matched = false;
        while k < self.codes.len() && !matched
            invariant
                k <= self.codes.len(),
                matched ==> exists|i: int| 0 <= i < self@.len()
                    && (#[trigger] self@[i]).code == presented@,
                !matched ==> forall|i: int| 0 <= i < k
                    ==> (#[trigger] self@[i]).code != presented@,
            decreases self.codes.len() - k + (if matched { 0int } else { 1int }),
        {
            if ct_eq(presented, self.codes[k].code.as_slice()) {
                matched = true;
                proof {
                    assert(self@[k as int].code == presented@);
                }
            } else {
                k = k + 1;
            }
        }
        if matched {
            Some(DeviceTokenClaims::new_token(device_desc, device_id, server_config))
        } else {
            None
        }
    }
}

} // verus!
