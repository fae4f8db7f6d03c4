//! Numbers in messages, messages, and the protocol of providers.

use crate::demo_backend::{blank_line_at, ok_response};
use crate::engine::{error_text, AutopilotError};
use crate::provider::{
    endpoint_of, means, provider_error_text, without_trailing_slashes, HttpReply, ProviderError,
    Reply,
};
use crate::simulation::{given_before, registers, service_model, Registration};
use crate::text::{decimal, digit, ratio_text, truncated, two_decimals, usd_text};
use crate::units::{Ratio, Usd};
use vstd::prelude::*;

verus! {

/// The number that decimal digits stand for.
pub open spec fn number(digits: Seq<char>) -> int
    decreases digits.len(),
{
    if digits.len() == 0 {
        0
    } else {
        10 * number(digits.drop_last()) + (digits.last() as int - '0' as int)
    }
}

/// A number in decimal reads back as that number: only digits, and no zero in front
/// of others.
pub proof fn law_decimals_read_back(n: nat)
    ensures
        number(decimal(n)) == n,
        decimal(n).len() > 0,
        forall|i: int| 0 <= i < decimal(n).len() ==> '0' <= #[trigger] decimal(n)[i] <= '9',
        decimal(n).len() > 1 ==> decimal(n)[0] != '0',
    decreases n,
{
    reveal_with_fuel(number, 2);
    if n >= 10 {
        law_decimals_read_back(n / 10);
        assert(decimal(n).drop_last() =~= decimal(n / 10));
        assert forall|i: int| 0 <= i < decimal(n).len() implies '0' <= #[trigger] decimal(n)[i]
            <= '9' by {
            if i < decimal(n / 10).len() {
                assert(decimal(n)[i] == decimal(n / 10)[i]);
            }
        }
        if n / 10 < 10 {
            assert(decimal(n / 10)[0] == digit(n / 10));
        }
    } else {
        assert(decimal(n).drop_last() =~= Seq::<char>::empty());
    }
}

/// Hundredths are written as the whole number, a point, and two digits.
pub proof fn law_two_decimals_read_back(hundredths: nat)
    ensures
        ({
            let text = two_decimals(hundredths);
            let n = text.len() as int;
            &&& n >= 4
            &&& text[n - 3] == '.'
            &&& number(text.take(n - 3)) == hundredths / 100
            &&& '0' <= text[n - 2] <= '9'
            &&& '0' <= text[n - 1] <= '9'
            &&& 10 * (text[n - 2] as int - '0' as int) + (text[n - 1] as int - '0' as int)
                == hundredths % 100
        }),
{
    reveal_strlit(".");
    law_decimals_read_back(hundredths / 100);
    let text = two_decimals(hundredths);
    let n = text.len() as int;
    assert(text.take(n - 3) =~= decimal(hundredths / 100));
    assert(hundredths / 10 % 10 == hundredths % 100 / 10);
}

/// A fraction is written in hundredths, at most half of one away from it.
pub proof fn law_fractions_are_written_to_the_hundredth(r: Ratio) -> (hundredths: nat)
    ensures
        ratio_text(r) == two_decimals(hundredths),
        2 * (hundredths * 15_000_000_000_000_000 - r.units) <= 15_000_000_000_000_000,
        2 * (r.units - hundredths * 15_000_000_000_000_000) <= 15_000_000_000_000_000,
{
    crate::laws::amounts::law_rounding_is_to_the_nearest(
        r.units as nat,
        15_000_000_000_000_000,
    );
    crate::units::nearest(r.units as nat, 15_000_000_000_000_000)
}

/// An amount below a million dollars is written in cents, at most half a cent away
/// from it but for 112 pico-dollars, with a minus sign exactly if it is below zero.
pub proof fn law_amounts_are_written_to_the_cent(amount: Usd) -> (cents: nat)
    requires
        -1_000_000_000_000_000_000 < amount.pico < 1_000_000_000_000_000_000,
    ensures
        amount.pico >= 0 ==> usd_text(amount) == two_decimals(cents),
        amount.pico < 0 ==> usd_text(amount) == seq!['-'] + two_decimals(cents),
        amount.pico >= 0 ==> -5_000_000_112 <= cents * 10_000_000_000 - amount.pico
            <= 5_000_000_112,
        amount.pico < 0 ==> -5_000_000_112 <= cents * 10_000_000_000 + amount.pico
            <= 5_000_000_112,
{
    reveal_strlit("-");
    let size: nat = if amount.pico < 0 {
        (-(amount.pico as int)) as nat
    } else {
        amount.pico as nat
    };
    crate::laws::amounts::law_cents_are_within_half_a_cent(size);
    let cents = crate::units::cents_of(size);
    if amount.pico < 0 {
        assert(usd_text(amount) =~= seq!['-'] + two_decimals(cents));
    } else {
        assert(usd_text(amount) =~= two_decimals(cents));
    }
    cents
}

/// A text that is too long keeps its first characters and ends in an ellipsis; any
/// other is kept whole.
pub proof fn law_what_truncation_keeps(s: Seq<char>, max_chars: nat)
    ensures
        s.len() <= max_chars ==> truncated(s, max_chars) == s,
        s.len() > max_chars ==> {
            &&& truncated(s, max_chars).len() == max_chars + 1
            &&& truncated(s, max_chars).last() == '…'
            &&& forall|i: int| 0 <= i < max_chars ==> #[trigger] truncated(s, max_chars)[i] == s[i]
        },
{
    reveal_strlit("…");
}

/// The messages of errors hold what the error holds, whole.
pub proof fn law_errors_tell_what_they_hold(
    code: u16,
    body: String,
    route: String,
    error: ProviderError,
)
    ensures
        provider_error_text(ProviderError::HttpStatus(code, body)) == "erreur HTTP "@ + decimal(
            code as nat,
        ) + ": "@ + body@,
        provider_error_text(ProviderError::Transport(body)) == "erreur de transport: "@ + body@,
        provider_error_text(ProviderError::MalformedResponse(body)) == "réponse malformée: "@
            + body@,
        error_text(AutopilotError::UnknownRoute(route)) == "route inconnue: "@ + route@,
        error_text(AutopilotError::AllRoutesFailed { last_error: error })
            == "toutes les routes de repli ont échoué, dernière erreur: "@ + provider_error_text(
            error,
        ),
        error_text(AutopilotError::Storage(body)) == "erreur de stockage: "@ + body@,
{
}

/// The address of a provider is its base URL without any slash at its end, followed
/// by the path of the chat format.
pub proof fn law_where_a_provider_is_called(base_url: Seq<char>) -> (kept: int)
    ensures
        0 <= kept <= base_url.len(),
        kept > 0 ==> base_url[kept - 1] != '/',
        forall|i: int| kept <= i < base_url.len() ==> #[trigger] base_url[i] == '/',
        endpoint_of(base_url) == base_url.take(kept) + "/v1/chat/completions"@,
    decreases base_url.len(),
{
    if base_url.len() > 0 && base_url.last() == '/' {
        let rest = base_url.drop_last();
        let kept = law_where_a_provider_is_called(rest);
        assert(rest.take(kept) =~= base_url.take(kept));
        assert(without_trailing_slashes(base_url) == without_trailing_slashes(rest));
        assert forall|i: int| kept <= i < base_url.len() implies #[trigger] base_url[i] == '/' by {
            if i < rest.len() {
                assert(rest[i] == base_url[i]);
            }
        }
        kept
    } else {
        assert(base_url.take(base_url.len() as int) =~= base_url);
        base_url.len() as int
    }
}

/// A reply over HTTP means the first choice, whole, with the usage as it was
/// reported, or else an error that holds what came back.
pub proof fn law_what_a_reply_means(reply: HttpReply, r: Reply)
    requires
        means(reply, r),
    ensures
        r is Ok <==> reply is Body && reply->choices@.len() > 0,
        r matches Ok(response) ==> {
            &&& response.text@ == reply->choices@[0]@
            &&& reply->usage matches Some(u) ==> response.usage == u
            &&& reply->usage is None ==> response.usage.prompt_tokens == 0
                && response.usage.completion_tokens == 0
        },
        reply matches HttpReply::Status(code, body) ==> r == Reply::Err(
            ProviderError::HttpStatus(code, body),
        ),
        reply matches HttpReply::NoAnswer(why) ==> r == Reply::Err(ProviderError::Transport(why)),
        reply matches HttpReply::Unreadable(what) ==> r == Reply::Err(
            ProviderError::MalformedResponse(what),
        ),
        reply is Body && reply->choices@.len() == 0 ==> r is Err && r->Err_0 is MalformedResponse,
{
}

/// A registration names the route, the model and the URL that it was made of, and
/// sends the key exactly as it was given.
pub proof fn law_what_a_registration_holds(
    r: Registration,
    k: int,
    model: Seq<char>,
    url: Seq<char>,
    key: Option<Seq<char>>,
)
    requires
        registers(r, k, model, url, key),
        0 <= k < 3,
    ensures
        r.route@ == crate::laws::decision::name(k),
        r.provider.spec_name() == crate::laws::decision::name(k),
        r.model@ == model,
        r.provider.spec_base_url() == url,
        r.provider.spec_api_key() == key,
        r.provider.spec_timeout() == 30_000_000_000,
{
    crate::router::lemma_tiers_differ();
}

/// The services that were given are counted one by one, and each tier has its model.
pub proof fn law_services_are_counted(urls: Seq<Option<String>>)
    requires
        urls.len() == 3,
    ensures
        given_before(urls, 0) == 0,
        given_before(urls, 1) == (if urls[0] is Some {
            1int
        } else {
            0
        }),
        given_before(urls, 2) == given_before(urls, 1) + (if urls[1] is Some {
            1int
        } else {
            0
        }),
        given_before(urls, 3) == given_before(urls, 2) + (if urls[2] is Some {
            1int
        } else {
            0
        }),
        service_model(0) == "local-model"@,
        service_model(1) == "paid-cheap-model"@,
        service_model(2) == "paid-premium-model"@,
{
    reveal_with_fuel(given_before, 4);
}

/// The head of a request ends with a carriage return and a line feed, twice.
pub proof fn law_where_a_head_ends(data: Seq<u8>, i: int)
    ensures
        blank_line_at(data, i) <==> 0 <= i && i + 4 <= data.len() && data.subrange(i, i + 4)
            == seq![13u8, 10u8, 13u8, 10u8],
{
    if 0 <= i && i + 4 <= data.len() {
        let window = data.subrange(i, i + 4);
        if window == seq![13u8, 10u8, 13u8, 10u8] {
            assert(window[0] == 13 && window[1] == 10 && window[2] == 13 && window[3] == 10);
        }
        if blank_line_at(data, i) {
            assert(window =~= seq![13u8, 10u8, 13u8, 10u8]);
        }
    }
}

/// A response ends with its body, whole, after an empty line, and tells its length.
pub proof fn law_a_response_carries_its_body(body: Seq<char>, length: nat)
    ensures
        ok_response(body, length)
            == "HTTP/1.1 200 OK\r\nContent-Type: application/json\r\nContent-Length: "@ + decimal(
            length,
        ) + "\r\nConnection: close\r\n\r\n"@ + body,
{
}

} // verus!
