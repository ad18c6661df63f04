//! The shared echo service: the decisions of its four methods. Every
//! language's interop suite talks to this service, so its observable behavior
//! is part of the test contract.

use crate::method::{fnv1a, method_id, path_id, FNV_PRIME};
use crate::outlet::{accepted, Outlet};
use crate::router::{Handler, Router};
use crate::status::{Code, Status};
use vstd::prelude::*;
use vstd::utf8::encode_utf8;

verus! {

/// Echoes a text, optionally uppercased.
pub const SAY: &'static str = "interop.Echo/say";

/// Streams the numbers from one up.
pub const COUNT: &'static str = "interop.Echo/count";

/// Fails as requested.
pub const FAIL: &'static str = "interop.Echo/fail";

/// Waits, while honoring cancellation and the deadline.
pub const SLEEP: &'static str = "interop.Echo/sleep";

#[derive(Clone, PartialEq, Eq, Debug)]
pub struct EchoRequest {
    pub text: String,
    pub shout: bool,
}

#[derive(Clone, PartialEq, Eq, Debug)]
pub struct EchoResponse {
    pub text: String,
}

#[derive(Clone, Copy, PartialEq, Eq, Debug, Structural)]
pub struct CountRequest {
    pub up_to: u32,
    /// The value after which the stream is to fail.
    pub fail_after: Option<u32>,
}

#[derive(Clone, Copy, PartialEq, Eq, Debug, Structural)]
pub struct CountResponse {
    pub value: u32,
}

#[derive(Clone, PartialEq, Eq, Debug)]
pub struct FailRequest {
    pub code: u16,
    pub detail: String,
}

#[derive(Clone, Copy, PartialEq, Eq, Debug, Structural)]
pub struct SleepRequest {
    pub ms: u32,
}

#[derive(Clone, Copy, PartialEq, Eq, Debug, Structural)]
pub struct Empty {}

/// What `str::to_uppercase` makes of `text`.
pub uninterp spec fn uppercase_text(text: Seq<char>) -> Seq<char>;

/// Calls `str::to_uppercase`. Claimed of it, not proved: the result depends on
/// the characters alone. Which characters have an uppercase form, and which
/// one, is Unicode's to say and left to the name.
#[verifier::external_body]
fn to_uppercase(text: &str) -> (upper: String)
    ensures
        upper@ == uppercase_text(text@),
{
    text.to_uppercase()
}

/// Puts the echoed text together from the request and the uppercase form of
/// its text.
pub fn echoed(request: EchoRequest, upper: String) -> (response: EchoResponse)
    ensures
        response.text == if request.shout {
            upper
        } else {
            request.text
        },
{
    let text = if request.shout {
        upper
    } else {
        request.text
    };
    EchoResponse { text }
}

/// What `say` answers: the text as it came, or uppercased if it is to be shouted.
pub fn say(request: EchoRequest) -> (response: EchoResponse)
    ensures
        response.text@ == if request.shout {
            uppercase_text(request.text@)
        } else {
            request.text@
        },
{
    if request.shout {
        let upper = to_uppercase(request.text.as_str());
        echoed(request, upper)
    } else {
        echoed(request, String::new())
    }
}

/// How a call of `say` ends: it always succeeds.
pub fn serve_say(request: EchoRequest) -> (out: Result<EchoResponse, Status>)
    ensures
        out matches Ok(response) && response.text@ == if request.shout {
            uppercase_text(request.text@)
        } else {
            request.text@
        },
{
    Ok(say(request))
}

/// What `count` does next.
#[derive(Debug)]
pub enum CountStep {
    /// Send this value.
    Send(CountResponse),
    /// End the stream with this failure.
    Fail(Status),
    /// End the stream.
    Done,
}

/// How many values `count` sends: all that were asked for, or those up to the
/// one after which it is to fail.
pub open spec fn count_len(request: CountRequest) -> u32 {
    if fails_midway(request) {
        request.fail_after->Some_0
    } else {
        request.up_to
    }
}

/// Whether `count` reaches the value after which it is to fail.
pub open spec fn fails_midway(request: CountRequest) -> bool {
    request.fail_after matches Some(value) && 1 <= value <= request.up_to
}

/// The next step of `count` once it sent the values up to `sent`.
pub fn count_step(request: CountRequest, sent: u32) -> (step: CountStep)
    requires
        sent <= count_len(request),
    ensures
        if sent < count_len(request) {
            step == CountStep::Send(CountResponse { value: (sent + 1) as u32 })
        } else if fails_midway(request) {
            step matches CountStep::Fail(status) && status@ == (
                Code::ABORTED,
                "failed mid-stream as requested"@,
            )
        } else {
            step == CountStep::Done
        },
{
    if let Some(value) = request.fail_after {
        if sent > 0 && value == sent {
            return CountStep::Fail(
                Status::new(Code(Code::ABORTED), "failed mid-stream as requested"),
            );
        }
    }
    if sent == request.up_to {
        CountStep::Done
    } else {
        CountStep::Send(CountResponse { value: sent + 1 })
    }
}

/// The record of the values from one up to `n`, each offered once and accepted.
pub open spec fn counted(n: u32) -> Seq<(CountResponse, Result<(), Status>)> {
    Seq::new(n as nat, |i: int| (CountResponse { value: (i + 1) as u32 }, Ok(())))
}

/// The values from one up to `n`.
pub open spec fn values_up_to(n: u32) -> Seq<CountResponse> {
    Seq::new(n as nat, |i: int| CountResponse { value: (i + 1) as u32 })
}

/// Serves `count`: sends one, two, three and so on, each once and in order, up
/// to the last value it owes, and stops at the first that cannot be sent.
pub fn count<T: Outlet<CountResponse>>(request: CountRequest, outlet: &mut T) -> (out: Result<
    (),
    Status,
>)
    ensures
        exists|n: u32|
            {
                &&& n <= count_len(request)
                &&& accepted(final(outlet).log()) == accepted(old(outlet).log())
                    + #[trigger] values_up_to(n)
                &&& if n < count_len(request) {
                    &&& out is Err
                    &&& final(outlet).log() == (old(outlet).log() + counted(n)).push(
                        (CountResponse { value: (n + 1) as u32 }, out),
                    )
                } else {
                    &&& final(outlet).log() == old(outlet).log() + counted(n)
                    &&& if fails_midway(request) {
                        out matches Err(status) && status@ == (
                            Code::ABORTED,
                            "failed mid-stream as requested"@,
                        )
                    } else {
                        out is Ok
                    }
                }
            },
{
    let mut sent: u32 = 0;
    assert(outlet.log() =~= old(outlet).log() + counted(0));
    assert(accepted(outlet.log()) =~= accepted(old(outlet).log()) + values_up_to(0));
    loop
        invariant
            sent <= count_len(request),
            outlet.log() == old(outlet).log() + counted(sent),
            accepted(outlet.log()) == accepted(old(outlet).log()) + values_up_to(sent),
        decreases count_len(request) - sent,
    {
        match count_step(request, sent) {
            CountStep::Done => return Ok(()),
            CountStep::Fail(status) => return Err(status),
            CountStep::Send(response) => {
                let ghost before = outlet.log();
                let out = outlet.offer(response);
                assert(outlet.log().drop_last() =~= before);
                if out.is_err() {
                    return out;
                }
                proof {
                    let next = (sent + 1) as u32;
                    assert(out->Ok_0 == ());
                    assert(outlet.log() =~= old(outlet).log() + counted(next));
                    assert(accepted(outlet.log()) =~= accepted(old(outlet).log()) + values_up_to(
                        next,
                    ));
                }
                sent = response.value;
            },
        }
    }
}

/// The values that `count` sends from `sent` on.
pub open spec fn values_after(request: CountRequest, sent: u32) -> Seq<u32>
    decreases count_len(request) - sent,
{
    if sent < count_len(request) {
        seq![(sent + 1) as u32] + values_after(request, (sent + 1) as u32)
    } else {
        Seq::empty()
    }
}

/// `count` streams one, two, three and so on, each once and in order, up to
/// the last value it owes.
pub proof fn count_streams_in_order(request: CountRequest, sent: u32)
    requires
        sent <= count_len(request),
    ensures
        values_after(request, sent) == Seq::new(
            (count_len(request) - sent) as nat,
            |i: int| (sent + 1 + i) as u32,
        ),
    decreases count_len(request) - sent,
{
    if sent < count_len(request) {
        count_streams_in_order(request, (sent + 1) as u32);
    }
    assert(values_after(request, sent) =~= Seq::new(
        (count_len(request) - sent) as nat,
        |i: int| (sent + 1 + i) as u32,
    ));
}

/// What `fail` fails with: the status that was asked for.
pub fn fail(request: FailRequest) -> (status: Status)
    ensures
        status@ == (request.code, request.detail@),
{
    Status { code: Code(request.code), message: request.detail }
}

/// How a call of `fail` ends: it always fails, with the status that was asked
/// for.
pub fn serve_fail(request: FailRequest) -> (out: Result<Empty, Status>)
    ensures
        out matches Err(status) && status@ == (request.code, request.detail@),
{
    Err(fail(request))
}

/// The longest that `sleep` sleeps without looking whether it is still wanted.
pub const MAX_NAP_MS: u64 = 5;

/// What `sleep` does next.
#[derive(Debug)]
pub enum SleepStep {
    /// Sleep this long; then this much is left.
    Nap { ms: u64, left: u64 },
    /// End the call with this failure.
    Woken(Status),
    /// End the call.
    Done,
}

/// How long `sleep` naps with `left` to go.
pub open spec fn nap_length(left: u64) -> u64 {
    if left < MAX_NAP_MS {
        left
    } else {
        MAX_NAP_MS
    }
}

/// The next step of `sleep` with `left` milliseconds to go.
pub fn sleep_step(left: u64, cancelled: bool) -> (step: SleepStep)
    ensures
        if left == 0 {
            step is Done
        } else if cancelled {
            step matches SleepStep::Woken(status) && status@ == (
                Code::CANCELLED,
                "woken by cancellation"@,
            )
        } else {
            step == SleepStep::Nap { ms: nap_length(left), left: (left - nap_length(left)) as u64 }
        },
{
    if left == 0 {
        return SleepStep::Done;
    }
    if cancelled {
        return SleepStep::Woken(Status::new(Code(Code::CANCELLED), "woken by cancellation"));
    }
    let nap: u64 = if left < MAX_NAP_MS {
        left
    } else {
        MAX_NAP_MS
    };
    SleepStep::Nap { ms: nap, left: left - nap }
}

/// How long `sleep` sleeps in all, undisturbed.
pub open spec fn total_sleep(left: u64) -> nat
    decreases left,
{
    if left == 0 {
        0
    } else {
        nap_length(left) as nat + total_sleep((left - nap_length(left)) as u64)
    }
}

/// Undisturbed, `sleep` sleeps exactly as long as it was asked to.
pub proof fn sleep_lasts_as_asked(ms: u64)
    ensures
        total_sleep(ms) == ms,
    decreases ms,
{
    if ms > 0 {
        sleep_lasts_as_asked((ms - nap_length(ms)) as u64);
    }
}

/// One more byte of a hash, with the numbers that it goes through.
proof fn hash_step(bytes: Seq<u8>, byte: u8, hash: u64, mixed: u64, next: u64)
    requires
        fnv1a(bytes) == hash,
        hash ^ (byte as u64) == mixed,
        (mixed as nat * FNV_PRIME as nat) % 0x1_0000_0000_0000_0000 == next,
    ensures
        fnv1a(bytes.push(byte)) == next,
{
    assert(bytes.push(byte).drop_last() =~= bytes);
}

/// What the paths of all four methods begin with.
spec fn service_prefix() -> Seq<u8> {
    seq![0x69u8, 0x6eu8, 0x74u8, 0x65u8, 0x72u8, 0x6fu8, 0x70u8, 0x2eu8, 0x45u8, 0x63u8, 0x68u8, 0x6fu8, 0x2fu8]
}

proof fn service_hash()
    ensures
        fnv1a(service_prefix()) == 0x712c_a0b3_dcf2_9002,
{
    assert({
        &&& 0xcbf2_9ce4_8422_2325u64 ^ 0x69u64 == 0xcbf2_9ce4_8422_234cu64
        &&& 0xaf63_e44c_8601_fa24u64 ^ 0x6eu64 == 0xaf63_e44c_8601_fa4au64
        &&& 0x08b7_3807_b55c_4bbeu64 ^ 0x74u64 == 0x08b7_3807_b55c_4bcau64
        &&& 0x2b9f_ff19_2bd4_c83eu64 ^ 0x65u64 == 0x2b9f_ff19_2bd4_c85bu64
        &&& 0xf5a6_d2c5_7a90_72a1u64 ^ 0x72u64 == 0xf5a6_d2c5_7a90_72d3u64
        &&& 0xfaea_f88f_4373_1c89u64 ^ 0x6fu64 == 0xfaea_f88f_4373_1ce6u64
        &&& 0xd061_416f_9c9a_1ad2u64 ^ 0x70u64 == 0xd061_416f_9c9a_1aa2u64
        &&& 0xaf5c_d2a7_19db_4146u64 ^ 0x2eu64 == 0xaf5c_d2a7_19db_4168u64
        &&& 0xd5fb_59f0_ef90_23b8u64 ^ 0x45u64 == 0xd5fb_59f0_ef90_23fdu64
        &&& 0x2a3d_d167_11ed_26e7u64 ^ 0x63u64 == 0x2a3d_d167_11ed_2684u64
        &&& 0xb431_5623_75f8_724cu64 ^ 0x68u64 == 0xb431_5623_75f8_7224u64
        &&& 0x2847_8241_7529_f32cu64 ^ 0x6fu64 == 0x2847_8241_7529_f343u64
        &&& 0x9b75_983a_1648_5ad9u64 ^ 0x2fu64 == 0x9b75_983a_1648_5af6u64
    }) by (bit_vector);
    let bytes = Seq::<u8>::empty();
    hash_step(bytes, 0x69, 0xcbf2_9ce4_8422_2325, 0xcbf2_9ce4_8422_234c, 0xaf63_e44c_8601_fa24);
    let bytes = bytes.push(0x69);
    hash_step(bytes, 0x6e, 0xaf63_e44c_8601_fa24, 0xaf63_e44c_8601_fa4a, 0x08b7_3807_b55c_4bbe);
    let bytes = bytes.push(0x6e);
    hash_step(bytes, 0x74, 0x08b7_3807_b55c_4bbe, 0x08b7_3807_b55c_4bca, 0x2b9f_ff19_2bd4_c83e);
    let bytes = bytes.push(0x74);
    hash_step(bytes, 0x65, 0x2b9f_ff19_2bd4_c83e, 0x2b9f_ff19_2bd4_c85b, 0xf5a6_d2c5_7a90_72a1);
    let bytes = bytes.push(0x65);
    hash_step(bytes, 0x72, 0xf5a6_d2c5_7a90_72a1, 0xf5a6_d2c5_7a90_72d3, 0xfaea_f88f_4373_1c89);
    let bytes = bytes.push(0x72);
    hash_step(bytes, 0x6f, 0xfaea_f88f_4373_1c89, 0xfaea_f88f_4373_1ce6, 0xd061_416f_9c9a_1ad2);
    let bytes = bytes.push(0x6f);
    hash_step(bytes, 0x70, 0xd061_416f_9c9a_1ad2, 0xd061_416f_9c9a_1aa2, 0xaf5c_d2a7_19db_4146);
    let bytes = bytes.push(0x70);
    hash_step(bytes, 0x2e, 0xaf5c_d2a7_19db_4146, 0xaf5c_d2a7_19db_4168, 0xd5fb_59f0_ef90_23b8);
    let bytes = bytes.push(0x2e);
    hash_step(bytes, 0x45, 0xd5fb_59f0_ef90_23b8, 0xd5fb_59f0_ef90_23fd, 0x2a3d_d167_11ed_26e7);
    let bytes = bytes.push(0x45);
    hash_step(bytes, 0x63, 0x2a3d_d167_11ed_26e7, 0x2a3d_d167_11ed_2684, 0xb431_5623_75f8_724c);
    let bytes = bytes.push(0x63);
    hash_step(bytes, 0x68, 0xb431_5623_75f8_724c, 0xb431_5623_75f8_7224, 0x2847_8241_7529_f32c);
    let bytes = bytes.push(0x68);
    hash_step(bytes, 0x6f, 0x2847_8241_7529_f32c, 0x2847_8241_7529_f343, 0x9b75_983a_1648_5ad9);
    let bytes = bytes.push(0x6f);
    hash_step(bytes, 0x2f, 0x9b75_983a_1648_5ad9, 0x9b75_983a_1648_5af6, 0x712c_a0b3_dcf2_9002);
    let bytes = bytes.push(0x2f);
    assert(bytes =~= service_prefix());
}

proof fn say_id()
    ensures
        path_id(SAY@) == 0x2144_947f_5c60_b34d,
{
    service_hash();
    let bytes = service_prefix();
    assert({
        &&& 0x712c_a0b3_dcf2_9002u64 ^ 0x73u64 == 0x712c_a0b3_dcf2_9071u64
        &&& 0x4165_82a0_702b_7003u64 ^ 0x61u64 == 0x4165_82a0_702b_7062u64
        &&& 0x4aed_589e_99cf_f686u64 ^ 0x79u64 == 0x4aed_589e_99cf_f6ffu64
    }) by (bit_vector);
    hash_step(bytes, 0x73, 0x712c_a0b3_dcf2_9002, 0x712c_a0b3_dcf2_9071, 0x4165_82a0_702b_7003);
    let bytes = bytes.push(0x73);
    hash_step(bytes, 0x61, 0x4165_82a0_702b_7003, 0x4165_82a0_702b_7062, 0x4aed_589e_99cf_f686);
    let bytes = bytes.push(0x61);
    hash_step(bytes, 0x79, 0x4aed_589e_99cf_f686, 0x4aed_589e_99cf_f6ff, 0x2144_947f_5c60_b34d);
    let bytes = bytes.push(0x79);
    reveal_strlit("interop.Echo/say");
    vstd::utf8::is_ascii_chars_encode_utf8(SAY@);
    assert(encode_utf8(SAY@) =~= bytes);
}

proof fn count_id()
    ensures
        path_id(COUNT@) == 0x69d7_638c_d9f3_a3e9,
{
    service_hash();
    let bytes = service_prefix();
    assert({
        &&& 0x712c_a0b3_dcf2_9002u64 ^ 0x63u64 == 0x712c_a0b3_dcf2_9061u64
        &&& 0x4165_72a0_702b_54d3u64 ^ 0x6fu64 == 0x4165_72a0_702b_54bcu64
        &&& 0x4ab6_829e_99a0_fb74u64 ^ 0x75u64 == 0x4ab6_829e_99a0_fb01u64
        &&& 0x951a_f47f_0c8a_82b3u64 ^ 0x6eu64 == 0x951a_f47f_0c8a_82ddu64
        &&& 0xe750_50e2_4f5c_5d87u64 ^ 0x74u64 == 0xe750_50e2_4f5c_5df3u64
    }) by (bit_vector);
    hash_step(bytes, 0x63, 0x712c_a0b3_dcf2_9002, 0x712c_a0b3_dcf2_9061, 0x4165_72a0_702b_54d3);
    let bytes = bytes.push(0x63);
    hash_step(bytes, 0x6f, 0x4165_72a0_702b_54d3, 0x4165_72a0_702b_54bc, 0x4ab6_829e_99a0_fb74);
    let bytes = bytes.push(0x6f);
    hash_step(bytes, 0x75, 0x4ab6_829e_99a0_fb74, 0x4ab6_829e_99a0_fb01, 0x951a_f47f_0c8a_82b3);
    let bytes = bytes.push(0x75);
    hash_step(bytes, 0x6e, 0x951a_f47f_0c8a_82b3, 0x951a_f47f_0c8a_82dd, 0xe750_50e2_4f5c_5d87);
    let bytes = bytes.push(0x6e);
    hash_step(bytes, 0x74, 0xe750_50e2_4f5c_5d87, 0xe750_50e2_4f5c_5df3, 0x69d7_638c_d9f3_a3e9);
    let bytes = bytes.push(0x74);
    reveal_strlit("interop.Echo/count");
    vstd::utf8::is_ascii_chars_encode_utf8(COUNT@);
    assert(encode_utf8(COUNT@) =~= bytes);
}

proof fn fail_id()
    ensures
        path_id(FAIL@) == 0x5a7a_caf9_f333_b902,
{
    service_hash();
    let bytes = service_prefix();
    assert({
        &&& 0x712c_a0b3_dcf2_9002u64 ^ 0x66u64 == 0x712c_a0b3_dcf2_9064u64
        &&& 0x4165_75a0_702b_59ecu64 ^ 0x61u64 == 0x4165_75a0_702b_598du64
        &&& 0x4ac0_6c9e_99a9_2a97u64 ^ 0x69u64 == 0x4ac0_6c9e_99a9_2afeu64
        &&& 0xae23_8f7f_1a74_0d9au64 ^ 0x6cu64 == 0xae23_8f7f_1a74_0df6u64
    }) by (bit_vector);
    hash_step(bytes, 0x66, 0x712c_a0b3_dcf2_9002, 0x712c_a0b3_dcf2_9064, 0x4165_75a0_702b_59ec);
    let bytes = bytes.push(0x66);
    hash_step(bytes, 0x61, 0x4165_75a0_702b_59ec, 0x4165_75a0_702b_598d, 0x4ac0_6c9e_99a9_2a97);
    let bytes = bytes.push(0x61);
    hash_step(bytes, 0x69, 0x4ac0_6c9e_99a9_2a97, 0x4ac0_6c9e_99a9_2afe, 0xae23_8f7f_1a74_0d9a);
    let bytes = bytes.push(0x69);
    hash_step(bytes, 0x6c, 0xae23_8f7f_1a74_0d9a, 0xae23_8f7f_1a74_0df6, 0x5a7a_caf9_f333_b902);
    let bytes = bytes.push(0x6c);
    reveal_strlit("interop.Echo/fail");
    vstd::utf8::is_ascii_chars_encode_utf8(FAIL@);
    assert(encode_utf8(FAIL@) =~= bytes);
}

proof fn sleep_id()
    ensures
        path_id(SLEEP@) == 0x08a8_7e7c_bd98_8205,
{
    service_hash();
    let bytes = service_prefix();
    assert({
        &&& 0x712c_a0b3_dcf2_9002u64 ^ 0x73u64 == 0x712c_a0b3_dcf2_9071u64
        &&& 0x4165_82a0_702b_7003u64 ^ 0x6cu64 == 0x4165_82a0_702b_706fu64
        &&& 0x4aed_659e_99d0_0c9du64 ^ 0x65u64 == 0x4aed_659e_99d0_0cf8u64
        &&& 0x2170_a47f_5c86_0968u64 ^ 0x65u64 == 0x2170_a47f_5c86_090du64
        &&& 0x5870_916a_37c1_6117u64 ^ 0x70u64 == 0x5870_916a_37c1_6167u64
    }) by (bit_vector);
    hash_step(bytes, 0x73, 0x712c_a0b3_dcf2_9002, 0x712c_a0b3_dcf2_9071, 0x4165_82a0_702b_7003);
    let bytes = bytes.push(0x73);
    hash_step(bytes, 0x6c, 0x4165_82a0_702b_7003, 0x4165_82a0_702b_706f, 0x4aed_659e_99d0_0c9d);
    let bytes = bytes.push(0x6c);
    hash_step(bytes, 0x65, 0x4aed_659e_99d0_0c9d, 0x4aed_659e_99d0_0cf8, 0x2170_a47f_5c86_0968);
    let bytes = bytes.push(0x65);
    hash_step(bytes, 0x65, 0x2170_a47f_5c86_0968, 0x2170_a47f_5c86_090d, 0x5870_916a_37c1_6117);
    let bytes = bytes.push(0x65);
    hash_step(bytes, 0x70, 0x5870_916a_37c1_6117, 0x5870_916a_37c1_6167, 0x08a8_7e7c_bd98_8205);
    let bytes = bytes.push(0x70);
    reveal_strlit("interop.Echo/sleep");
    vstd::utf8::is_ascii_chars_encode_utf8(SLEEP@);
    assert(encode_utf8(SLEEP@) =~= bytes);
}

/// The routing ids of the four methods. Pinned: a change here is a wire format
/// break.
pub proof fn method_ids()
    ensures
        path_id(SAY@) == 0x2144_947f_5c60_b34d,
        path_id(COUNT@) == 0x69d7_638c_d9f3_a3e9,
        path_id(FAIL@) == 0x5a7a_caf9_f333_b902,
        path_id(SLEEP@) == 0x08a8_7e7c_bd98_8205,
{
    say_id();
    count_id();
    fail_id();
    sleep_id();
}

/// The reference router, given what runs each method.
pub fn router<U, S>(say: U, count: S, fail: U, sleep: U) -> (router: Router<U, S>)
    ensures
        router@ == Map::<u64, (&'static str, Handler<U, S>)>::empty().insert(
            path_id(SAY@),
            (SAY, Handler::Unary(say)),
        ).insert(path_id(COUNT@), (COUNT, Handler::Stream(count))).insert(
            path_id(FAIL@),
            (FAIL, Handler::Unary(fail)),
        ).insert(path_id(SLEEP@), (SLEEP, Handler::Unary(sleep))),
        router@.dom() == set![path_id(SAY@), path_id(COUNT@), path_id(FAIL@), path_id(SLEEP@)],
        router@.dom().len() == 4,
{
    proof {
        method_ids();
    }
    let mut router = Router::new();
    let _ = router.insert(method_id(SAY), SAY, Handler::Unary(say));
    let _ = router.insert(method_id(COUNT), COUNT, Handler::Stream(count));
    let _ = router.insert(method_id(FAIL), FAIL, Handler::Unary(fail));
    let _ = router.insert(method_id(SLEEP), SLEEP, Handler::Unary(sleep));
    router
}

/// `count` sends as many values as it is asked for, unless it is to fail after
/// one of them: then it sends none beyond that one.
pub proof fn counts_end_where_asked(request: CountRequest)
    ensures
        request.fail_after is None ==> count_len(request) == request.up_to && !fails_midway(
            request,
        ),
        request.fail_after matches Some(last) ==> {
            &&& 1 <= last <= request.up_to ==> count_len(request) == last && fails_midway(request)
            &&& last == 0 || last > request.up_to ==> count_len(request) == request.up_to
                && !fails_midway(request)
        },
{
}

/// The values that `count` sends are one, two, three and so on, each accepted
/// once.
pub proof fn counts_go_up_by_one(n: u32, i: int)
    ensures
        values_up_to(n).len() == n,
        counted(n).len() == n,
        0 <= i < n ==> {
            &&& values_up_to(n)[i].value == i + 1
            &&& counted(n)[i].0.value == i + 1
            &&& counted(n)[i].1 is Ok
        },
{
}

/// `sleep` never naps longer than five milliseconds nor longer than is left,
/// and naps less only at the end.
pub proof fn naps_are_short(left: u64)
    ensures
        nap_length(left) <= 5,
        nap_length(left) <= left,
        nap_length(left) == 5 || nap_length(left) == left,
{
}

} // verus!
