//! The configuration, all of which comes from the environment.

use vstd::prelude::*;
use vstd::string::*;

use crate::text::quote;
#[allow(unused_imports)]
use crate::text::{
    is_blank, is_tight, law_trimmed, law_trimming_is_unique, quoted, surrounds, trimmed,
};

verus! {

/// The variable that holds the gateway's API root.
pub const URL_VARIABLE: &'static str = "PROMPTFORGE_GATEWAY_URL";

/// The variable that holds the gateway's shared bearer.
pub const KEY_VARIABLE: &'static str = "PROMPTFORGE_GATEWAY_API_KEY";

/// The variable that holds the id of the model to run with.
pub const MODEL_VARIABLE: &'static str = "PROMPTFORGE_MODEL";

/// What to do about a gateway URL that is missing.
pub const URL_HINT: &'static str = "set it to the gateway API root, e.g. http://127.0.0.1:8081/v1";

/// What to do about a bearer that is missing.
pub const KEY_HINT: &'static str = "set it to the gateway's shared bearer token ([server] api_key)";

/// What the environment holds under a name.
#[derive(Debug, PartialEq, Eq)]
pub enum Variable {
    /// The variable is set to this text.
    Present(String),
    /// The variable is not set.
    NotPresent,
    /// The variable is set to something that is not valid Unicode.
    NotUnicode,
}

/// A variable as mathematics sees it.
#[verifier::ext_equal]
pub enum VariableView {
    Present(Seq<char>),
    NotPresent,
    NotUnicode,
}

impl View for Variable {
    type V = VariableView;

    open spec fn view(&self) -> VariableView {
        match self {
            Variable::Present(value) => VariableView::Present(value@),
            Variable::NotPresent => VariableView::NotPresent,
            Variable::NotUnicode => VariableView::NotUnicode,
        }
    }
}

/// The value of a required variable, or the message that names it.
pub open spec fn required(name: Seq<char>, value: VariableView, hint: Seq<char>) -> Result<
    Seq<char>,
    Seq<char>,
> {
    match value {
        VariableView::Present(text) => if trimmed(text).len() > 0 {
            Ok(trimmed(text))
        } else {
            Err(name + " is empty; "@ + hint)
        },
        VariableView::NotPresent => Err(name + " is not set; "@ + hint),
        VariableView::NotUnicode => Err(name + " is not valid Unicode; "@ + hint),
    }
}

/// The value of an optional variable. Blank counts as unset.
pub open spec fn optional(value: VariableView) -> Option<Seq<char>> {
    match value {
        VariableView::Present(text) => if trimmed(text).len() > 0 {
            Some(trimmed(text))
        } else {
            None
        },
        _ => None,
    }
}

/// Reads a required environment variable, naming it in every failure.
pub fn required_env(name: &str, value: &Variable, hint: &str) -> (res: Result<String, String>)
    ensures
        match required(name@, value@, hint@) {
            Ok(text) => res is Ok && res->Ok_0@ == text,
            Err(message) => res is Err && res->Err_0@ == message,
        },
{
    match value {
        Variable::Present(text) => {
            let text = text.as_str().trim();
            if !text.is_empty() {
                Ok(text.to_owned())
            } else {
                Err(name.to_owned().concat(" is empty; ").concat(hint))
            }
        },
        Variable::NotPresent => Err(name.to_owned().concat(" is not set; ").concat(hint)),
        Variable::NotUnicode => Err(name.to_owned().concat(" is not valid Unicode; ").concat(hint)),
    }
}

/// Reads an optional environment variable, treating blank as unset.
pub fn optional_env(value: &Variable) -> (res: Option<String>)
    ensures
        crate::text::optional_text(res) == optional(value@),
{
    match value {
        Variable::Present(text) => {
            let text = text.as_str().trim();
            if text.is_empty() {
                None
            } else {
                Some(text.to_owned())
            }
        },
        _ => None,
    }
}

/// The gateway settings read from the environment.
pub struct Gateway {
    /// The API root, for example `http://127.0.0.1:8081/v1`.
    pub url: String,
    /// The shared bearer token.
    pub key: String,
}

/// The settings as mathematics sees them.
#[verifier::ext_equal]
pub struct GatewayView {
    pub url: Seq<char>,
    pub key: Seq<char>,
}

impl View for Gateway {
    type V = GatewayView;

    open spec fn view(&self) -> GatewayView {
        GatewayView { url: self.url@, key: self.key@ }
    }
}

/// The gateway that the two variables describe. The URL is looked at first.
pub open spec fn configured_gateway(url: VariableView, key: VariableView) -> Result<
    GatewayView,
    Seq<char>,
> {
    match required(URL_VARIABLE@, url, URL_HINT@) {
        Err(message) => Err(message),
        Ok(url) => match required(KEY_VARIABLE@, key, KEY_HINT@) {
            Err(message) => Err(message),
            Ok(key) => Ok(GatewayView { url, key }),
        },
    }
}

/// Reads the gateway URL and key from what the environment holds under
/// `URL_VARIABLE` and `KEY_VARIABLE`.
pub fn gateway_from_env(url: &Variable, key: &Variable) -> (res: Result<Gateway, String>)
    ensures
        match configured_gateway(url@, key@) {
            Ok(gateway) => res is Ok && res->Ok_0@ == gateway,
            Err(message) => res is Err && res->Err_0@ == message,
        },
{
    match required_env(URL_VARIABLE, url, URL_HINT) {
        Err(message) => Err(message),
        Ok(url) => match required_env(KEY_VARIABLE, key, KEY_HINT) {
            Err(message) => Err(message),
            Ok(key) => Ok(Gateway { url, key }),
        },
    }
}

/// The settings with the key struck out, around a URL already in quotes.
pub open spec fn redacted(url: Seq<char>) -> Seq<char> {
    "Gateway { url: "@ + url + ", key: \"<redacted>\" }"@
}

/// The settings with the key struck out, around a URL already in quotes.
pub fn redacted_text(url: &str) -> (text: String)
    ensures
        text@ == redacted(url@),
{
    "Gateway { url: ".to_owned().concat(url).concat(", key: \"<redacted>\" }")
}

/// The settings as they are logged.
pub open spec fn logged(gateway: GatewayView) -> Seq<char> {
    redacted(quoted(gateway.url))
}

impl Gateway {
    /// The settings for a log. The bearer is a secret and never rendered.
    pub fn debug_text(&self) -> (text: String)
        ensures
            text@ == logged(self@),
    {
        redacted_text(quote(self.url.as_str()).as_str())
    }
}

/// The log does not depend on the key.
pub proof fn law_log_is_blind_to_the_key(a: GatewayView, b: GatewayView)
    requires
        a.url == b.url,
    ensures
        logged(a) == logged(b),
{
}

/// Blank counts as absent, and what is accepted has no white space around it.
pub proof fn law_values_are_trimmed(name: Seq<char>, text: Seq<char>, hint: Seq<char>)
    ensures
        required(name, VariableView::Present(text), hint) is Ok <==> trimmed(text).len() > 0,
        optional(VariableView::Present(text)) is Some <==> trimmed(text).len() > 0,
        required(name, VariableView::Present(text), hint) matches Ok(value) ==> {
            &&& !crate::text::is_white_space(value[0])
            &&& !crate::text::is_white_space(value.last())
        },
{
    crate::text::lemma_trimmed(text);
}

/// Every failure over a required variable starts with its name.
pub proof fn law_failures_name_the_variable(
    name: Seq<char>,
    value: VariableView,
    hint: Seq<char>,
)
    ensures
        required(name, value, hint) matches Err(message) ==> name.is_prefix_of(message),
{
}

/// What a required variable is set to comes back whole, without the white space
/// around it; and blank, unset and garbled are told apart.
pub proof fn law_required_value(name: Seq<char>, text: Seq<char>, hint: Seq<char>)
    ensures
        !is_blank(text) ==> {
            &&& required(name, VariableView::Present(text), hint) matches Ok(value)
            &&& is_tight(value)
            &&& surrounds(text, value)
        },
        is_blank(text) ==> required(name, VariableView::Present(text), hint) == Err::<
            Seq<char>,
            _,
        >(name + " is empty; "@ + hint),
        required(name, VariableView::NotPresent, hint) == Err::<Seq<char>, _>(
            name + " is not set; "@ + hint,
        ),
        required(name, VariableView::NotUnicode, hint) == Err::<Seq<char>, _>(
            name + " is not valid Unicode; "@ + hint,
        ),
{
    law_trimmed(text);
}

/// What an optional variable is set to comes back whole, without the white space
/// around it; and blank, unset and garbled are all the same as nothing.
pub proof fn law_optional_value(text: Seq<char>)
    ensures
        !is_blank(text) ==> {
            &&& optional(VariableView::Present(text)) matches Some(value)
            &&& is_tight(value)
            &&& surrounds(text, value)
        },
        is_blank(text) ==> optional(VariableView::Present(text)) is None,
        optional(VariableView::NotPresent) is None,
        optional(VariableView::NotUnicode) is None,
{
    law_trimmed(text);
}

/// White space around a value makes no difference to what is read.
pub proof fn law_white_space_is_ignored(
    name: Seq<char>,
    before: Seq<char>,
    value: Seq<char>,
    after: Seq<char>,
    hint: Seq<char>,
)
    requires
        is_blank(before),
        is_blank(after),
        is_tight(value),
    ensures
        required(name, VariableView::Present(before + value + after), hint) == Ok::<
            _,
            Seq<char>,
        >(value),
        optional(VariableView::Present(before + value + after)) == Some(value),
{
    law_trimming_is_unique(before + value + after, value);
}

/// The gateway is what the two variables are set to, whole and each in its place.
pub proof fn law_gateway_is_what_is_set(url: Seq<char>, key: Seq<char>)
    requires
        !is_blank(url),
        !is_blank(key),
    ensures
        ({
            &&& configured_gateway(VariableView::Present(url), VariableView::Present(key))
                matches Ok(gateway)
            &&& is_tight(gateway.url) && surrounds(url, gateway.url)
            &&& is_tight(gateway.key) && surrounds(key, gateway.key)
        }),
{
    law_trimmed(url);
    law_trimmed(key);
}

/// Whether a variable holds a value.
pub open spec fn is_set(value: VariableView) -> bool {
    value matches VariableView::Present(text) && !is_blank(text)
}

/// What is said of a variable that holds no value.
pub open spec fn complaint(value: VariableView) -> Seq<char> {
    match value {
        VariableView::Present(_) => " is empty; "@,
        VariableView::NotPresent => " is not set; "@,
        VariableView::NotUnicode => " is not valid Unicode; "@,
    }
}

/// Without a URL there is no gateway, whatever the key; with one, there is none
/// without a key. The message names the variable, says what is wrong with it and
/// how to set it.
pub proof fn law_gateway_needs_both(url: VariableView, key: VariableView)
    ensures
        configured_gateway(url, key) is Ok <==> is_set(url) && is_set(key),
        !is_set(url) ==> configured_gateway(url, key) == Err::<GatewayView, _>(
            "PROMPTFORGE_GATEWAY_URL"@ + complaint(url)
                + "set it to the gateway API root, e.g. http://127.0.0.1:8081/v1"@,
        ),
        is_set(url) && !is_set(key) ==> configured_gateway(url, key) == Err::<GatewayView, _>(
            "PROMPTFORGE_GATEWAY_API_KEY"@ + complaint(key)
                + "set it to the gateway's shared bearer token ([server] api_key)"@,
        ),
{
    if let VariableView::Present(text) = url {
        law_trimmed(text);
    }
    if let VariableView::Present(text) = key {
        law_trimmed(text);
    }
}

/// The log shows the whole URL, in quotes, and nothing in place of the key but
/// that it is struck out.
pub proof fn law_log_shows_the_url(gateway: GatewayView, url: Seq<char>)
    ensures
        redacted(url) == "Gateway { url: "@ + url + ", key: \"<redacted>\" }"@,
        logged(gateway) == "Gateway { url: "@ + quoted(gateway.url)
            + ", key: \"<redacted>\" }"@,
{
}

/// What the environment holds is seen whole, and so are the settings.
pub proof fn law_settings_are_seen_whole(value: Variable, gateway: Gateway)
    ensures
        value matches Variable::Present(text) ==> value@ == VariableView::Present(text@),
        value is NotPresent ==> value@ is NotPresent,
        value is NotUnicode ==> value@ is NotUnicode,
        gateway@.url == gateway.url@,
        gateway@.key == gateway.key@,
{
}

} // verus!
