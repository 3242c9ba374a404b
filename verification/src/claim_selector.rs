//! The page that lets the user choose between competing claims to a name.
use vstd::prelude::*;

use crate::nns::models::{ClaimLocation, NnsClaim};
use crate::text::{chars_of, decimal, decimal_string, string_from_range};

verus! {

// A row is ROW_0 index ROW_1 address ROW_2 short-key ROW_3 time ROW_4 name ROW_5 hex-key
// ROW_6 address ROW_7; the page is PAGE_0 name PAGE_1 name PAGE_2 count PAGE_3 name
// PAGE_4 rows PAGE_5.
pub const SELECTOR_ROW_0: &'static str = r##"
            <tr class="claim-row" data-idx=""##;
pub const SELECTOR_ROW_1: &'static str = r##"">
                <td class="claim-ip">"##;
pub const SELECTOR_ROW_2: &'static str = r##"</td>
                <td class="claim-pubkey">"##;
pub const SELECTOR_ROW_3: &'static str = r##"</td>
                <td class="claim-time">"##;
pub const SELECTOR_ROW_4: &'static str = r##"</td>
                <td class="claim-action">
                    <form method="GET" action="nns://select-claim" style="margin: 0;">
                        <input type="hidden" name="name" value=""##;
pub const SELECTOR_ROW_5: &'static str = r##"" />
                        <input type="hidden" name="pubkey" value=""##;
pub const SELECTOR_ROW_6: &'static str = r##"" />
                        <input type="hidden" name="ip" value=""##;
pub const SELECTOR_ROW_7: &'static str = r##"" />
                        <button type="submit" class="select-button">Select</button>
                    </form>
                </td>
            </tr>
            "##;
pub const SELECTOR_PAGE_0: &'static str = r##"<!DOCTYPE html>
<html lang="en">
<head>
    <meta charset="UTF-8">
    <meta name="viewport" content="width=device-width, initial-scale=1.0">
    <title>Select NNS Claim for ""##;
pub const SELECTOR_PAGE_1: &'static str = r##""</title>
    <style>
        * {
            box-sizing: border-box;
        }

        html, body {
            margin: 0;
            padding: 0;
            width: 100%;
            height: 100%;
            font-family: -apple-system, BlinkMacSystemFont, "Segoe UI", Helvetica, Arial, sans-serif;
            background: #f6f8fa;
        }

        .container {
            max-width: 1000px;
            margin: 0 auto;
            padding: 40px 20px;
        }

        h1 {
            font-size: 32px;
            font-weight: 600;
            color: #24292f;
            margin-bottom: 8px;
        }

        .subtitle {
            font-size: 16px;
            color: #57606a;
            margin-bottom: 32px;
        }

        .info-box {
            background: #fff;
            border: 1px solid #d0d7de;
            border-radius: 6px;
            padding: 16px;
            margin-bottom: 24px;
        }

        .info-box p {
            margin: 8px 0;
            color: #24292f;
            line-height: 1.5;
        }

        table {
            width: 100%;
            background: white;
            border: 1px solid #d0d7de;
            border-radius: 6px;
            border-collapse: separate;
            border-spacing: 0;
        }

        thead {
            background: #f6f8fa;
        }

        th {
            padding: 12px 16px;
            text-align: left;
            font-weight: 600;
            font-size: 14px;
            color: #24292f;
            border-bottom: 1px solid #d0d7de;
        }

        th:first-child {
            border-top-left-radius: 6px;
        }

        th:last-child {
            border-top-right-radius: 6px;
        }

        td {
            padding: 12px 16px;
            font-size: 14px;
            color: #24292f;
            border-bottom: 1px solid #d0d7de;
        }

        tr:last-child td {
            border-bottom: none;
        }

        .claim-row:hover {
            background: #f6f8fa;
        }

        .claim-ip {
            font-family: ui-monospace, SFMono-Regular, "SF Mono", Menlo, Consolas, "Liberation Mono", monospace;
            color: #0969da;
        }

        .claim-pubkey {
            font-family: ui-monospace, SFMono-Regular, "SF Mono", Menlo, Consolas, "Liberation Mono", monospace;
            color: #57606a;
            font-size: 12px;
        }

        .claim-time {
            color: #57606a;
        }

        .select-button {
            background: #2da44e;
            color: white;
            border: 1px solid rgba(27, 31, 36, 0.15);
            border-radius: 6px;
            padding: 5px 16px;
            font-size: 14px;
            font-weight: 500;
            cursor: pointer;
            transition: background 0.2s;
        }

        .select-button:hover {
            background: #2c974b;
        }

        .select-button:active {
            background: #298e46;
        }

        .count-badge {
            display: inline-block;
            background: #0969da;
            color: white;
            padding: 2px 8px;
            border-radius: 12px;
            font-size: 12px;
            font-weight: 600;
            margin-left: 8px;
        }
    </style>
</head>
<body>
    <div class="container">
        <h1>Multiple claims found for ""##;
pub const SELECTOR_PAGE_2: &'static str = r##""<span class="count-badge">"##;
pub const SELECTOR_PAGE_3: &'static str = r##"</span></h1>
        <p class="subtitle">Choose which claim to trust for this name</p>

        <div class="info-box">
            <p><strong>What is this?</strong></p>
            <p>Multiple people have published claims to the name ""##;
pub const SELECTOR_PAGE_4: &'static str = r##"". This is normal in the Nostr Name System (NNS).</p>
            <p>Select the claim you want to trust. Your choice will be remembered for future visits.</p>
        </div>

        <table>
            <thead>
                <tr>
                    <th>IP Address</th>
                    <th>Publisher (Pubkey)</th>
                    <th>Published At (Unix Time)</th>
                    <th>Action</th>
                </tr>
            </thead>
            <tbody>
                "##;
pub const SELECTOR_PAGE_5: &'static str = r##"
            </tbody>
        </table>
    </div>
</body>
</html>"##;

/// Every character is ASCII.
pub open spec fn ascii_text(s: Seq<char>) -> bool {
    forall|i: int| 0 <= i < s.len() ==> (#[trigger] s[i] as u32) < 128
}

/// What the address column shows of a claim: the socket address, the Blossom root, or
/// the URL.
pub open spec fn claim_address(c: NnsClaim) -> Seq<char> {
    match c.location {
        ClaimLocation::DirectIp(a) => a@,
        ClaimLocation::Blossom { root_hash, .. } => root_hash@,
        ClaimLocation::LegacyUrl(u) => u@,
    }
}

/// A public key shortened to its first and last eight characters.
pub open spec fn short_key(npub: Seq<char>) -> Seq<char> {
    npub.take(8) + "..."@ + npub.skip(npub.len() - 8)
}

/// The table row of the claim at `idx`.
pub open spec fn claim_row(idx: nat, name: Seq<char>, c: NnsClaim) -> Seq<char> {
    SELECTOR_ROW_0@ + decimal(idx) + SELECTOR_ROW_1@ + claim_address(c) + SELECTOR_ROW_2@
        + short_key(c.pubkey_npub@) + SELECTOR_ROW_3@ + decimal(c.created_at as nat)
        + SELECTOR_ROW_4@ + name + SELECTOR_ROW_5@ + c.pubkey_hex@ + SELECTOR_ROW_6@
        + claim_address(c) + SELECTOR_ROW_7@
}

/// The rows of all claims, in order.
pub open spec fn claim_rows(name: Seq<char>, claims: Seq<NnsClaim>) -> Seq<char>
    decreases claims.len(),
{
    if claims.len() == 0 {
        Seq::empty()
    } else {
        claim_rows(name, claims.drop_last()) + claim_row(
            (claims.len() - 1) as nat,
            name,
            claims.last(),
        )
    }
}

/// The whole selection page.
pub open spec fn selector_page(name: Seq<char>, claims: Seq<NnsClaim>) -> Seq<char> {
    SELECTOR_PAGE_0@ + name + SELECTOR_PAGE_1@ + name + SELECTOR_PAGE_2@ + decimal(
        claims.len(),
    ) + SELECTOR_PAGE_3@ + name + SELECTOR_PAGE_4@ + claim_rows(name, claims) + SELECTOR_PAGE_5@
}

fn address_text(c: &NnsClaim) -> (r: &str)
    ensures
        r@ == claim_address(*c),
{
    match &c.location {
        ClaimLocation::DirectIp(a) => a.as_str(),
        ClaimLocation::Blossom { root_hash, .. } => root_hash.as_str(),
        ClaimLocation::LegacyUrl(u) => u.as_str(),
    }
}

fn short_key_text(npub: &str) -> (r: String)
    requires
        npub@.len() >= 8,
    ensures
        r@ == short_key(npub@),
{
    let cs = chars_of(npub);
    let mut r = string_from_range(cs.as_slice(), 0, 8);
    r.append("...");
    let tail = string_from_range(cs.as_slice(), cs.len() - 8, cs.len());
    r.append(tail.as_str());
    proof {
        assert(cs@.subrange(0, 8) =~= npub@.take(8));
        assert(cs@.subrange(cs@.len() - 8, cs@.len() as int) =~= npub@.skip(npub@.len() - 8));
    }
    r
}

fn claim_row_text(idx: usize, name: &str, c: &NnsClaim) -> (r: String)
    requires
        c.pubkey_npub@.len() >= 8,
    ensures
        r@ == claim_row(idx as nat, name@, *c),
{
    let address = address_text(c);
    let index = decimal_string(idx as u64);
    let short = short_key_text(c.pubkey_npub.as_str());
    let time = decimal_string(c.created_at);
    let mut row = String::from_str(SELECTOR_ROW_0);
    row.append(index.as_str());
    row.append(SELECTOR_ROW_1);
    row.append(address);
    row.append(SELECTOR_ROW_2);
    row.append(short.as_str());
    row.append(SELECTOR_ROW_3);
    row.append(time.as_str());
    row.append(SELECTOR_ROW_4);
    row.append(name);
    row.append(SELECTOR_ROW_5);
    row.append(c.pubkey_hex.as_str());
    row.append(SELECTOR_ROW_6);
    row.append(address);
    row.append(SELECTOR_ROW_7);
    row
}

/// Builds the page that lists the claims to `name` and lets the user pick one. Each
/// claim's public key is shown shortened to its first and last eight characters.
pub fn generate_claim_selector_html(name: &str, claims: &[NnsClaim]) -> (r: String)
    requires
        forall|i: int|
            0 <= i < claims@.len() ==> (#[trigger] claims@[i]).pubkey_npub@.len() >= 8
                && ascii_text(claims@[i].pubkey_npub@),
    ensures
        r@ == selector_page(name@, claims@),
{
    let mut rows = String::new();
    let mut i: usize = 0;
    proof {
        assert(claims@.take(0) =~= Seq::<NnsClaim>::empty());
    }
    while i < claims.len()
        invariant
            i <= claims@.len(),
            rows@ == claim_rows(name@, claims@.take(i as int)),
            forall|k: int|
                0 <= k < claims@.len() ==> (#[trigger] claims@[k]).pubkey_npub@.len() >= 8,
        decreases claims@.len() - i,
    {
        let c = &claims[i];
        proof {
            let t = claims@.take(i + 1);
            assert(t.drop_last() =~= claims@.take(i as int));
            assert(t.last() == *c);
        }
        let row = claim_row_text(i, name, c);
        rows.append(row.as_str());
        i = i + 1;
    }
    proof {
        assert(claims@.take(claims@.len() as int) =~= claims@);
    }
    let count = decimal_string(claims.len() as u64);
    let mut page = String::from_str(SELECTOR_PAGE_0);
    page.append(name);
    page.append(SELECTOR_PAGE_1);
    page.append(name);
    page.append(SELECTOR_PAGE_2);
    page.append(count.as_str());
    page.append(SELECTOR_PAGE_3);
    page.append(name);
    page.append(SELECTOR_PAGE_4);
    page.append(rows.as_str());
    page.append(SELECTOR_PAGE_5);
    page
}

} // verus!
