//! Minting hotspot vouchers.
//!
//! A voucher's code exists only in the response that created it: no later
//! read reproduces it. So a batch is judged on its own shape, and the codes
//! are returned whatever that judgement says.

use vstd::prelude::*;
use vstd::string::*;

use crate::control::{confirmed, is_confirmed};
use crate::error::{invalid_params, is_invalid_params, ToolError};
use crate::mutation::REDACTION_MARKER;
use crate::paging::{query_accepted, trim_query};
use crate::redaction::{covered, discloses, scrub_text, scrubbed, spans, substituted, text_discloses};
use crate::text::{
    chars_of,
    contains,
    is_white_space,
    occurs_at,
    opt_string,
    same_text,
    text_contains,
    texts,
    trimmed,
    white_space,
};

verus! {

/// Most vouchers one call mints.
pub const VOUCHER_BATCH_CEILING: u32 = 100;

/// Longest validity one voucher may carry, in minutes: seven days.
pub const VOUCHER_MINUTES_CEILING: u32 = 10_080;

/// Widest code that is called well formed.
pub const VOUCHER_CODE_MAX: usize = 64;

/// What is asked to be minted.
pub struct VouchersCreateInput {
    pub name: String,
    pub count: u32,
    pub time_limit_minutes: u32,
    pub guest_limit: Option<u32>,
    pub data_limit_megabytes: Option<u64>,
    pub confirm: Option<bool>,
}

/// The batch a call mints, echoed so a preview shows what is reviewed.
pub struct VoucherBatch {
    pub name: String,
    pub count: u32,
    pub time_limit_minutes: u32,
    pub guest_limit: Option<u32>,
    pub data_limit_megabytes: Option<u64>,
}

/// What is sent to the controller.
pub struct VoucherCreate {
    pub name: String,
    pub count: u32,
    pub time_limit_minutes: u32,
    pub authorized_guest_limit: Option<u32>,
    pub data_usage_limit_m_bytes: Option<u64>,
}

/// A voucher as the controller returned it.
pub struct CreatedVoucher {
    pub id: Option<String>,
    pub code: Option<String>,
}

/// One voucher as it is returned. The code is the credential.
pub struct VoucherView {
    pub id: Option<String>,
    pub code: String,
}

/// What could be established about a batch without reading it back.
pub struct VoucherChecks {
    pub count_matches: bool,
    pub all_identified: bool,
    pub all_distinct: bool,
    pub all_well_formed: bool,
    pub code_lengths: Vec<usize>,
}

/// The result of a call.
pub struct VouchersCreateOutput {
    /// Whether the controller was asked to mint.
    pub applied: bool,
    pub batch: VoucherBatch,
    pub requested: u32,
    pub vouchers: Option<Vec<VoucherView>>,
    pub checks: Option<VoucherChecks>,
    pub well_formed: Option<bool>,
    pub warnings: Vec<String>,
}

/// What follows once the request was accepted.
pub enum VoucherStep {
    /// Answer with this; nothing is minted.
    Answer(VouchersCreateOutput),
    /// Mint this batch.
    Mint(VoucherCreate),
}

// ---------------------------------------------------------------------------
// The request
// ---------------------------------------------------------------------------

/// The refusal of a request, where it is refused.
pub open spec fn batch_refusal(input: VouchersCreateInput) -> Option<Seq<char>> {
    if !(1 <= input.count <= VOUCHER_BATCH_CEILING) {
        Some("count must be between 1 and 100"@)
    } else if !(1 <= input.time_limit_minutes <= VOUCHER_MINUTES_CEILING) {
        Some("timeLimitMinutes must be between 1 and 10080"@)
    } else if !query_accepted(input.name@) {
        Some("name must be 1-128 UTF-8 bytes once trimmed"@)
    } else {
        None
    }
}

/// Whether a batch is the one a request describes.
pub open spec fn describes(batch: VoucherBatch, input: VouchersCreateInput) -> bool {
    &&& batch.name@ == trimmed(input.name@)
    &&& batch.count == input.count
    &&& batch.time_limit_minutes == input.time_limit_minutes
    &&& batch.guest_limit == input.guest_limit
    &&& batch.data_limit_megabytes == input.data_limit_megabytes
}

/// The batch a request describes, or the reason it cannot be minted.
///
/// Everything decidable from the request alone is decided here, before any
/// controller call: a batch refused after minting is credentials nobody can
/// reach.
pub fn voucher_batch(input: &VouchersCreateInput) -> (result: Result<VoucherBatch, ToolError>)
    ensures
        result is Err <==> batch_refusal(*input) is Some,
        result matches Err(error) ==> is_invalid_params(error, batch_refusal(*input)->Some_0),
        result matches Ok(batch) ==> describes(batch, *input),
{
    if input.count < 1 || input.count > VOUCHER_BATCH_CEILING {
        return Err(invalid_params("count must be between 1 and 100"));
    }
    if input.time_limit_minutes < 1 || input.time_limit_minutes > VOUCHER_MINUTES_CEILING {
        return Err(invalid_params("timeLimitMinutes must be between 1 and 10080"));
    }
    match trim_query(input.name.as_str()) {
        Some(name) => Ok(
            VoucherBatch {
                name,
                count: input.count,
                time_limit_minutes: input.time_limit_minutes,
                guest_limit: input.guest_limit,
                data_limit_megabytes: input.data_limit_megabytes,
            },
        ),
        None => Err(invalid_params("name must be 1-128 UTF-8 bytes once trimmed")),
    }
}

/// The warnings every call carries.
pub open spec fn voucher_notes() -> Seq<Seq<char>> {
    seq![
        "each voucher is a credential for the guest network, and its code is returned once here and never again"@,
        "the codes cannot be read back from the controller, so this result is the only copy"@,
    ]
}

fn voucher_warnings() -> (warnings: Vec<String>)
    ensures
        texts(warnings@) == voucher_notes(),
{
    let warnings: Vec<String> = vec![
        "each voucher is a credential for the guest network, and its code is returned once here and never again".to_owned(),
        "the codes cannot be read back from the controller, so this result is the only copy".to_owned(),
    ];
    assert(texts(warnings@) =~= voucher_notes());
    warnings
}

/// What follows a request: its refusal, a description of the batch, or, only
/// where the call was confirmed, the order to mint it.
pub fn vouchers_create(input: &VouchersCreateInput) -> (result: Result<VoucherStep, ToolError>)
    ensures
        result is Err <==> batch_refusal(*input) is Some,
        match result {
            Err(error) => is_invalid_params(error, batch_refusal(*input)->Some_0),
            Ok(VoucherStep::Mint(order)) => {
                &&& confirmed(input.confirm)
                &&& order.name@ == trimmed(input.name@)
                &&& order.count == input.count
                &&& order.time_limit_minutes == input.time_limit_minutes
                &&& order.authorized_guest_limit == input.guest_limit
                &&& order.data_usage_limit_m_bytes == input.data_limit_megabytes
            },
            Ok(VoucherStep::Answer(output)) => {
                &&& !confirmed(input.confirm)
                &&& !output.applied
                &&& describes(output.batch, *input)
                &&& output.requested == input.count
                &&& output.vouchers is None
                &&& output.checks is None
                &&& output.well_formed is None
                &&& texts(output.warnings@) == voucher_notes()
            },
        },
{
    let batch = match voucher_batch(input) {
        Ok(batch) => batch,
        Err(error) => {
            return Err(error);
        },
    };
    if is_confirmed(input.confirm) {
        return Ok(
            VoucherStep::Mint(
                VoucherCreate {
                    name: batch.name,
                    count: input.count,
                    time_limit_minutes: input.time_limit_minutes,
                    authorized_guest_limit: input.guest_limit,
                    data_usage_limit_m_bytes: input.data_limit_megabytes,
                },
            ),
        );
    }
    Ok(
        VoucherStep::Answer(
            VouchersCreateOutput {
                applied: false,
                batch,
                requested: input.count,
                vouchers: None,
                checks: None,
                well_formed: None,
                warnings: voucher_warnings(),
            },
        ),
    )
}

// ---------------------------------------------------------------------------
// Settling what was minted
// ---------------------------------------------------------------------------

/// The code of a voucher; one that came without a code has an empty one.
pub open spec fn code_of(voucher: CreatedVoucher) -> Seq<char> {
    match voucher.code {
        Some(code) => code@,
        None => Seq::empty(),
    }
}

/// The id a voucher is returned with. A modified id would no longer name the
/// voucher on the controller, so one that holds a secret is withheld whole.
pub open spec fn settled_id(voucher: CreatedVoucher, secrets: Seq<Seq<char>>) -> Option<Seq<char>> {
    match opt_string(voucher.id) {
        Some(id) => if discloses(id, secrets) {
            None
        } else {
            Some(id)
        },
        None => None,
    }
}

/// Whether a view is what is returned of a voucher.
pub open spec fn settles(view: VoucherView, voucher: CreatedVoucher, secrets: Seq<Seq<char>>) -> bool {
    &&& opt_string(view.id) == settled_id(voucher, secrets)
    &&& view.code@ == scrubbed(code_of(voucher), secrets)
}

/// The advice on a voucher whose code had to be redacted: it depends on
/// whether the voucher can still be named.
pub open spec fn redacted_code_advice(identified: bool) -> Seq<char> {
    if identified {
        "a code contained configured credential material and was redacted, so it is not the code the controller issued and that voucher cannot be used; its id is here, so revoke it on the controller and mint a replacement"@
    } else {
        "a code contained configured credential material and was redacted, and the controller gave this voucher no id, so it can be neither used nor found; look for it among the site's vouchers by creation time"@
    }
}

/// The advice on a voucher, where its code had to be redacted.
pub open spec fn advice_on(voucher: CreatedVoucher, secrets: Seq<Seq<char>>) -> Option<Seq<char>> {
    if discloses(code_of(voucher), secrets) {
        Some(redacted_code_advice(settled_id(voucher, secrets) is Some))
    } else {
        None
    }
}

/// The advice on a batch, in the order of its vouchers.
pub open spec fn advice(created: Seq<CreatedVoucher>, secrets: Seq<Seq<char>>) -> Seq<Seq<char>> {
    created.filter_map(|voucher: CreatedVoucher| advice_on(voucher, secrets))
}

fn settle(voucher: CreatedVoucher, secrets: &Vec<String>) -> (settled: (VoucherView, Option<String>))
    ensures
        settles(settled.0, voucher, texts(secrets@)),
        opt_string(settled.1) == advice_on(voucher, texts(secrets@)),
{
    let id = match voucher.id {
        Some(text) => if text_discloses(text.as_str(), secrets) {
            None
        } else {
            Some(text)
        },
        None => None,
    };
    let code = match voucher.code {
        Some(text) => text,
        None => String::new(),
    };
    match scrub_text(code.as_str(), secrets) {
        Some(clean) => {
            let warning = if id.is_some() {
                "a code contained configured credential material and was redacted, so it is not the code the controller issued and that voucher cannot be used; its id is here, so revoke it on the controller and mint a replacement".to_owned()
            } else {
                "a code contained configured credential material and was redacted, and the controller gave this voucher no id, so it can be neither used nor found; look for it among the site's vouchers by creation time".to_owned()
            };
            (VoucherView { id, code: clean }, Some(warning))
        },
        None => (VoucherView { id, code }, None),
    }
}

// ---------------------------------------------------------------------------
// Checks
// ---------------------------------------------------------------------------

/// Whether a voucher carries an id and a code.
pub open spec fn identified(view: VoucherView) -> bool {
    &&& opt_string(view.id) matches Some(id) && id.len() > 0
    &&& view.code@.len() > 0
}

/// Whether a code can be used as it is: of a plausible length, free of white
/// space, and not redacted.
pub open spec fn code_well_formed(code: Seq<char>) -> bool {
    &&& 0 < code.len() <= VOUCHER_CODE_MAX
    &&& forall|i: int| 0 <= i < code.len() ==> !is_white_space(#[trigger] code[i])
    &&& !contains(code, REDACTION_MARKER@)
}

/// Whether a list holds the lengths of the codes, each once, in ascending
/// order.
pub open spec fn lists_lengths(lengths: Seq<usize>, vouchers: Seq<VoucherView>) -> bool {
    &&& ascends(lengths)
    &&& forall|i: int|
        0 <= i < vouchers.len() ==> lengths.contains(
            (#[trigger] vouchers[i]).code@.len() as usize,
        )
    &&& forall|k: int|
        0 <= k < lengths.len() ==> exists|i: int|
            0 <= i < vouchers.len() && (#[trigger] vouchers[i]).code@.len()
                == #[trigger] lengths[k]
}

/// Whether every voucher carries an id and a code.
pub open spec fn all_identified(vouchers: Seq<VoucherView>) -> bool {
    forall|i: int| 0 <= i < vouchers.len() ==> identified(#[trigger] vouchers[i])
}

/// Whether every code differs from every other.
pub open spec fn all_distinct(vouchers: Seq<VoucherView>) -> bool {
    forall|i: int, j: int|
        0 <= i < j < vouchers.len() ==> (#[trigger] vouchers[i]).code@ != (
        #[trigger] vouchers[j]).code@
}

/// Whether every code can be used as it is.
pub open spec fn all_well_formed(vouchers: Seq<VoucherView>) -> bool {
    forall|i: int| 0 <= i < vouchers.len() ==> code_well_formed((#[trigger] vouchers[i]).code@)
}

/// Whether checks are those of a batch.
pub open spec fn checks_hold(checks: VoucherChecks, requested: u32, vouchers: Seq<VoucherView>) -> bool {
    &&& checks.count_matches == (requested == vouchers.len())
    &&& checks.all_identified == all_identified(vouchers)
    &&& checks.all_distinct == all_distinct(vouchers)
    &&& checks.all_well_formed == all_well_formed(vouchers)
    &&& lists_lengths(checks.code_lengths@, vouchers)
}

fn is_identified(view: &VoucherView) -> (result: bool)
    ensures
        result == identified(*view),
{
    let named = match &view.id {
        Some(id) => !id.as_str().is_empty(),
        None => false,
    };
    named && !view.code.as_str().is_empty()
}

fn is_code_well_formed(code: &str) -> (result: bool)
    ensures
        result == code_well_formed(code@),
{
    let chars = chars_of(code);
    if chars.len() == 0 || chars.len() > VOUCHER_CODE_MAX {
        return false;
    }
    let mut i: usize = 0;
    while i < chars.len()
        invariant
            i <= chars@.len(),
            chars@ == code@,
            forall|k: int| 0 <= k < i ==> !is_white_space(#[trigger] code@[k]),
        decreases chars@.len() - i,
    {
        if white_space(chars[i]) {
            assert(is_white_space(code@[i as int]));
            return false;
        }
        i += 1;
    }
    !text_contains(code, REDACTION_MARKER)
}

fn check_identified(vouchers: &Vec<VoucherView>) -> (result: bool)
    ensures
        result == all_identified(vouchers@),
{
    let mut i: usize = 0;
    while i < vouchers.len()
        invariant
            i <= vouchers@.len(),
            forall|k: int| 0 <= k < i ==> identified(#[trigger] vouchers@[k]),
        decreases vouchers@.len() - i,
    {
        if !is_identified(&vouchers[i]) {
            return false;
        }
        i += 1;
    }
    true
}

fn check_well_formed(vouchers: &Vec<VoucherView>) -> (result: bool)
    ensures
        result == all_well_formed(vouchers@),
{
    let mut i: usize = 0;
    while i < vouchers.len()
        invariant
            i <= vouchers@.len(),
            forall|k: int| 0 <= k < i ==> code_well_formed((#[trigger] vouchers@[k]).code@),
        decreases vouchers@.len() - i,
    {
        if !is_code_well_formed(vouchers[i].code.as_str()) {
            return false;
        }
        i += 1;
    }
    true
}

fn check_distinct(vouchers: &Vec<VoucherView>) -> (result: bool)
    ensures
        result == all_distinct(vouchers@),
{
    let mut i: usize = 0;
    while i < vouchers.len()
        invariant
            i <= vouchers@.len(),
            forall|a: int, b: int|
                0 <= a < b < i ==> (#[trigger] vouchers@[a]).code@ != (
                #[trigger] vouchers@[b]).code@,
        decreases vouchers@.len() - i,
    {
        let mut j: usize = 0;
        while j < i
            invariant
                j <= i < vouchers@.len(),
                forall|a: int|
                    0 <= a < j ==> (#[trigger] vouchers@[a]).code@ != vouchers@[i as int].code@,
            decreases i - j,
        {
            if same_text(vouchers[j].code.as_str(), vouchers[i].code.as_str()) {
                assert(vouchers@[j as int].code@ == vouchers@[i as int].code@);
                return false;
            }
            j += 1;
        }
        i += 1;
    }
    true
}

/// Whether lengths are strictly ascending.
pub open spec fn ascends(lengths: Seq<usize>) -> bool {
    forall|i: int, j: int| 0 <= i < j < lengths.len() ==> lengths[i] < lengths[j]
}

/// Puts a length in its place among ascending ones, once.
fn add_length(lengths: &mut Vec<usize>, length: usize)
    requires
        ascends(old(lengths)@),
    ensures
        ascends(final(lengths)@),
        forall|n: usize| #[trigger]
            final(lengths)@.contains(n) <==> old(lengths)@.contains(n) || n == length,
{
    let mut at: usize = 0;
    let ghost prior = lengths@;
    while at < lengths.len() && lengths[at] < length
        invariant
            at <= lengths@.len(),
            lengths@ == prior,
            forall|k: int| 0 <= k < at ==> prior[k] < length,
        decreases lengths@.len() - at,
    {
        at += 1;
    }
    if at < lengths.len() && lengths[at] == length {
        assert(prior.contains(length));
        return;
    }
    lengths.insert(at, length);
    assert(lengths@[at as int] == length);
    assert forall|n: usize| #[trigger] lengths@.contains(n) <==> prior.contains(n) || n
        == length by {
        if prior.contains(n) {
            let k = choose|k: int| 0 <= k < prior.len() && prior[k] == n;
            if k < at {
                assert(lengths@[k] == n);
            } else {
                assert(lengths@[k + 1] == n);
            }
        }
        if lengths@.contains(n) && n != length {
            let k = choose|k: int| 0 <= k < lengths@.len() && lengths@[k] == n;
            if k < at {
                assert(prior[k] == n);
            } else {
                assert(prior[k - 1] == n);
            }
        }
    }
}

fn code_lengths(vouchers: &Vec<VoucherView>) -> (lengths: Vec<usize>)
    ensures
        lists_lengths(lengths@, vouchers@),
{
    let mut lengths: Vec<usize> = Vec::new();
    let mut i: usize = 0;
    while i < vouchers.len()
        invariant
            i <= vouchers@.len(),
            lists_lengths(lengths@, vouchers@.take(i as int)),
        decreases vouchers@.len() - i,
    {
        let chars = chars_of(vouchers[i].code.as_str());
        let ghost prior = lengths@;
        let ghost done = vouchers@.take(i as int);
        let ghost next = vouchers@.take(i + 1);
        add_length(&mut lengths, chars.len());
        proof {
            assert(next[i as int] == vouchers@[i as int]);
            assert forall|k: int| 0 <= k < next.len() implies lengths@.contains(
                (#[trigger] next[k]).code@.len() as usize,
            ) by {
                if k < i {
                    assert(next[k] == done[k]);
                    assert(prior.contains(done[k].code@.len() as usize));
                }
            }
            assert forall|k: int| 0 <= k < lengths@.len() implies exists|m: int|
                0 <= m < next.len() && (#[trigger] next[m]).code@.len()
                    == #[trigger] lengths@[k] by {
                let n = lengths@[k];
                assert(lengths@.contains(n));
                if n == chars@.len() {
                    assert(next[i as int].code@.len() == lengths@[k]);
                } else {
                    let p = choose|p: int| 0 <= p < prior.len() && prior[p] == n;
                    let m = choose|m: int|
                        0 <= m < done.len() && (#[trigger] done[m]).code@.len() == prior[p];
                    assert(next[m] == done[m]);
                }
            }
        }
        i += 1;
    }
    assert(vouchers@.take(i as int) =~= vouchers@);
    lengths
}

/// What can be established about a batch without reading it again: whether
/// what the controller returned is usable as vouchers.
pub fn voucher_checks(requested: u32, vouchers: &Vec<VoucherView>) -> (checks: VoucherChecks)
    ensures
        checks_hold(checks, requested, vouchers@),
{
    VoucherChecks {
        count_matches: requested as u64 == vouchers.len() as u64,
        all_identified: check_identified(vouchers),
        all_distinct: check_distinct(vouchers),
        all_well_formed: check_well_formed(vouchers),
        code_lengths: code_lengths(vouchers),
    }
}

// ---------------------------------------------------------------------------
// The answer
// ---------------------------------------------------------------------------

/// What is answered once a batch was minted. Codes are scrubbed of configured
/// secrets before they are checked, so a code the scrub had to change is
/// reported rather than returned as though the controller had produced it.
pub fn vouchers_created(
    input: &VouchersCreateInput,
    batch: VoucherBatch,
    created: Vec<CreatedVoucher>,
    secrets: &Vec<String>,
) -> (output: VouchersCreateOutput)
    ensures
        output.applied,
        output.batch == batch,
        output.requested == input.count,
        output.vouchers is Some,
        output.vouchers->Some_0@.len() == created@.len(),
        forall|i: int|
            0 <= i < created@.len() ==> settles(
                #[trigger] output.vouchers->Some_0@[i],
                created@[i],
                texts(secrets@),
            ),
        output.checks is Some,
        checks_hold(output.checks->Some_0, input.count, output.vouchers->Some_0@),
        output.well_formed == Some(
            input.count == created@.len() && all_identified(output.vouchers->Some_0@)
                && all_distinct(output.vouchers->Some_0@) && all_well_formed(
                output.vouchers->Some_0@,
            ),
        ),
        texts(output.warnings@) == voucher_notes() + advice(created@, texts(secrets@)),
{
    let mut warnings = voucher_warnings();
    let mut vouchers: Vec<VoucherView> = Vec::new();
    let ghost all = created@;
    let ghost kept = texts(secrets@);
    assert(texts(warnings@) =~= voucher_notes() + advice(all.take(0), kept));
    for voucher in it: created
        invariant
            it.seq() == all,
            kept == texts(secrets@),
            vouchers@.len() == it.index(),
            forall|i: int|
                0 <= i < it.index() ==> settles(#[trigger] vouchers@[i], all[i], kept),
            texts(warnings@) == voucher_notes() + advice(all.take(it.index() as int), kept),
    {
        let ghost done = it.index() as int;
        let ghost prior = texts(warnings@);
        assert(all.take(done + 1).drop_last() =~= all.take(done));
        assert(all.take(done + 1).last() == voucher);
        let (view, warning) = settle(voucher, secrets);
        vouchers.push(view);
        if let Some(text) = warning {
            let ghost line = text@;
            warnings.push(text);
            assert(texts(warnings@) =~= prior.push(line));
            assert(texts(warnings@) =~= voucher_notes() + advice(all.take(done + 1), kept));
        } else {
            assert(advice(all.take(done + 1), kept) =~= advice(all.take(done), kept));
        }
    }
    assert(all.take(all.len() as int) =~= all);
    let checks = voucher_checks(input.count, &vouchers);
    let well_formed = checks.count_matches && checks.all_identified && checks.all_distinct
        && checks.all_well_formed;
    VouchersCreateOutput {
        applied: true,
        batch,
        requested: input.count,
        vouchers: Some(vouchers),
        checks: Some(checks),
        well_formed: Some(well_formed),
        warnings,
    }
}

// ---------------------------------------------------------------------------
// Laws
// ---------------------------------------------------------------------------

/// A code that had to be redacted is never called well formed, and a code
/// that holds no secret is returned exactly as it was minted.
pub proof fn law_redacted_codes_are_never_well_formed(code: Seq<char>, secrets: Seq<Seq<char>>)
    ensures
        discloses(code, secrets) ==> !code_well_formed(scrubbed(code, secrets)),
        !discloses(code, secrets) ==> scrubbed(code, secrets) == code,
{
    if discloses(code, secrets) {
        let marker = REDACTION_MARKER@;
        if discloses(substituted(code, secrets, 0), secrets) {
            assert(marker.subrange(0, marker.len() as int) =~= marker);
            assert(occurs_at(marker, marker, 0));
            assert(contains(marker, marker));
        } else {
            let k = choose|k: int|
                0 <= k < secrets.len() && (#[trigger] secrets[k]).len() > 0 && contains(
                    code,
                    secrets[k],
                );
            let at = choose|at: int| occurs_at(code, secrets[k], at);
            assert(covered(code, secrets, at)) by {
                assert(occurs_at(code, secrets[k], at) && secrets[k].len() > 0);
            }
            lemma_substitution_shows_the_marker(code, secrets, 0, at);
        }
    }
}

/// Whether some covered character from `p` on starts a run.
proof fn lemma_substitution_shows_the_marker(
    text: Seq<char>,
    secrets: Seq<Seq<char>>,
    p: int,
    q: int,
)
    requires
        0 <= p <= q < text.len(),
        covered(text, secrets, q),
        !spans(text, secrets, p, p),
    ensures
        contains(substituted(text, secrets, p), REDACTION_MARKER@),
    decreases text.len() - p,
{
    let marker = REDACTION_MARKER@;
    let rest = substituted(text, secrets, p + 1);
    let here = substituted(text, secrets, p);
    if covered(text, secrets, p) {
        assert(here =~= marker + rest);
        assert(here.subrange(0, marker.len() as int) =~= marker);
        assert(occurs_at(here, marker, 0));
    } else {
        assert(q != p);
        assert(!spans(text, secrets, p + 1, p + 1)) by {
            if spans(text, secrets, p + 1, p + 1) {
                let (k, at) = choose|k: int, at: int|
                    0 <= k < secrets.len() && (#[trigger] secrets[k]).len() > 0
                        && #[trigger] occurs_at(text, secrets[k], at) && at < p + 1 && p + 1 < at
                        + secrets[k].len();
                assert(occurs_at(text, secrets[k], at) && secrets[k].len() > 0);
                assert(spans(text, secrets, p + 1, p));
            }
        }
        lemma_substitution_shows_the_marker(text, secrets, p + 1, q);
        let found = choose|found: int| occurs_at(rest, marker, found);
        assert(here.subrange(found + 1, found + 1 + marker.len()) =~= rest.subrange(
            found,
            found + marker.len(),
        ));
        assert(occurs_at(here, marker, found + 1));
    }
}

} // verus!
