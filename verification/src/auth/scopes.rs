//! Claims and scopes of access tokens, and what they are enough for.
use crate::auth::encoding::decode_base64;
use crate::auth::encoding;
use crate::error::CliCoreError;
use crate::error;
use crate::json::{Json, JsonModel};
use crate::json;
use crate::json_bridge::{from_serde, read_value};
use crate::json_bridge;
use crate::middleware::meta::ValueMap;
use crate::text;
use vstd::prelude::*;
use vstd::string::*;

verus! {

/// What a token's claims say.
pub type ClaimsText = Map<Seq<char>, JsonModel>;

/// The claims that bytes hold: a JSON object.
pub open spec fn claims_in(bytes: Seq<u8>) -> Option<ClaimsText> {
    match json_bridge::parsed_bytes(bytes) {
        Ok(JsonModel::Object(members)) => Some(members),
        _ => None,
    }
}

/// The claims of a JWT: its second dot-separated part, in URL-safe Base64
/// without padding, where that is a JSON object.
pub open spec fn claims_of(token: Seq<char>) -> Option<ClaimsText> {
    let parts = text::split_spec(token, '.');
    if parts.len() < 2 {
        None
    } else {
        match encoding::base64_bytes(parts[1]) {
            Some(bytes) => claims_in(bytes),
            None => None,
        }
    }
}

/// What optional claims say.
pub open spec fn opt_claims(c: Option<ValueMap>) -> Option<ClaimsText> {
    match c {
        Some(m) => Some(json::map_models(m@)),
        None => None,
    }
}

/// Decodes the claims (payload) segment of a JWT without verifying the
/// signature.
///
/// The claims are used to display an identity and to decide whether a fresh
/// login is needed. These are convenience reads, not trust or authorization
/// decisions. Opaque tokens and any decode failure yield `None`.
pub fn decode_jwt_claims(token: &str) -> (r: Option<ValueMap>)
    ensures
        opt_claims(r) == claims_of(token@),
{
    broadcast use json::group_json;

    let parts = text::split_char(token, '.');
    assert(text::texts(parts@).len() == parts@.len());
    if parts.len() < 2 {
        return None;
    }
    let bytes = match decode_base64(parts[1].as_str()) {
        Some(b) => b,
        None => {
            return None;
        },
    };
    match read_value(bytes.as_slice()) {
        Ok(v) => match from_serde(v) {
            Json::Object(members) => Some(members),
            _ => None,
        },
        Err(_) => None,
    }
}

/// The claim `name`.
pub open spec fn claim(claims: ClaimsText, name: Seq<char>) -> Option<JsonModel> {
    if claims.dom().contains(name) {
        Some(claims[name])
    } else {
        None
    }
}

/// The scopes of a list claim: the words of its strings.
pub open spec fn list_scopes(items: Seq<JsonModel>) -> Seq<Seq<char>>
    decreases items.len(),
{
    if items.len() == 0 {
        Seq::empty()
    } else {
        let before = list_scopes(items.drop_last());
        match items.last() {
            JsonModel::Text(s) => before + text::words(s),
            _ => before,
        }
    }
}

/// The scopes of a claim: the words of a string, or of the strings of a list.
pub open spec fn claim_scopes(v: JsonModel) -> Seq<Seq<char>> {
    match v {
        JsonModel::Text(s) => text::words(s),
        JsonModel::Array(items) => list_scopes(items),
        _ => Seq::empty(),
    }
}

/// Parses a scope claim that may be a space-delimited string or a JSON array of
/// (possibly space-delimited) strings.
pub fn scopes_from_claim(value: &Json) -> (r: Vec<String>)
    ensures
        text::texts(r@) == claim_scopes(value@),
{
    broadcast use json::group_json;

    match value {
        Json::Text(s) => text::split_whitespace(s.as_str()),
        Json::Array(items) => {
            let ghost all = json::models(items@);
            let mut r: Vec<String> = Vec::new();
            let mut i: usize = 0;
            proof {
                assert(all.take(0) =~= Seq::empty());
                assert(text::texts(r@) =~= Seq::empty());
            }
            while i < items.len()
                invariant
                    i <= items@.len(),
                    all == json::models(items@),
                    text::texts(r@) == list_scopes(all.take(i as int)),
                decreases items@.len() - i,
            {
                proof {
                    json::lemma_models(items@);
                    assert(all.take(i + 1).drop_last() =~= all.take(i as int));
                    assert(all.take(i + 1).last() == items@[i as int]@);
                }
                match items[i].as_str() {
                    Some(s) => {
                        let mut more = text::split_whitespace(s);
                        let ghost sofar = r@;
                        let ghost added = more@;
                        r.append(&mut more);
                        assert(text::texts(r@) =~= text::texts(sofar) + text::texts(added));
                    },
                    None => {},
                }
                i = i + 1;
            }
            proof {
                json::lemma_models(items@);
                assert(all.take(i as int) =~= all);
            }
            r
        },
        _ => {
            let r: Vec<String> = Vec::new();
            assert(text::texts(r@) =~= Seq::empty());
            r
        },
    }
}

/// The scopes of the claim `name`, none without it.
pub open spec fn named_scopes(claims: ClaimsText, name: Seq<char>) -> Seq<Seq<char>> {
    match claim(claims, name) {
        Some(v) => claim_scopes(v),
        None => Seq::empty(),
    }
}

/// The scopes of claims: those of `scope`, else those of `scp`.
pub open spec fn scopes_in(claims: Option<ClaimsText>) -> Seq<Seq<char>> {
    match claims {
        Some(c) => if named_scopes(c, "scope"@).len() > 0 {
            named_scopes(c, "scope"@)
        } else {
            named_scopes(c, "scp"@)
        },
        None => Seq::empty(),
    }
}

/// Reads the granted scopes from the claims of an access token.
///
/// OAuth uses a space-delimited `scope` string, but some identity providers use
/// `scp`, and either may be encoded as a JSON array.
pub fn scopes_from_claims(claims: &Option<ValueMap>) -> (r: Vec<String>)
    ensures
        text::texts(r@) == scopes_in(opt_claims(*claims)),
{
    match claims {
        Some(c) => {
            match c.get("scope") {
                Some(v) => {
                    let scopes = scopes_from_claim(v);
                    assert(text::texts(scopes@).len() == scopes@.len());
                    if scopes.len() > 0 {
                        return scopes;
                    }
                },
                None => {},
            }
            match c.get("scp") {
                Some(v) => scopes_from_claim(v),
                None => {
                    let none: Vec<String> = Vec::new();
                    assert(text::texts(none@) =~= Seq::empty());
                    none
                },
            }
        },
        None => {
            let none: Vec<String> = Vec::new();
            assert(text::texts(none@) =~= Seq::empty());
            none
        },
    }
}

/// Reads the granted scopes from a JWT access token. Empty for opaque (non-JWT)
/// tokens or tokens without a recognized scope claim.
pub fn scopes_from_jwt(token: &str) -> (r: Vec<String>)
    ensures
        text::texts(r@) == scopes_in(claims_of(token@)),
{
    let claims = decode_jwt_claims(token);
    scopes_from_claims(&claims)
}

/// The union of scopes, in order and without duplicates beyond those of the
/// defaults.
pub open spec fn union_spec(
    defaults: Seq<Seq<char>>,
    granted: Seq<Seq<char>>,
    required: Seq<Seq<char>>,
) -> Seq<Seq<char>> {
    text::with_missing(text::with_missing(defaults, granted), required)
}

/// Returns `defaults ∪ granted ∪ required`, order-preserving and de-duplicated.
pub fn union_scopes(defaults: &Vec<String>, granted: &Vec<String>, required: &Vec<String>) -> (r:
    Vec<String>)
    ensures
        text::texts(r@) == union_spec(
            text::texts(defaults@),
            text::texts(granted@),
            text::texts(required@),
        ),
{
    let mut r = text::clone_strings(defaults);
    text::add_missing(&mut r, granted);
    text::add_missing(&mut r, required);
    r
}

/// The required scopes that are not granted, in order.
pub open spec fn missing_spec(granted: Seq<Seq<char>>, required: Seq<Seq<char>>) -> Seq<Seq<char>>
    decreases required.len(),
{
    if required.len() == 0 {
        Seq::empty()
    } else {
        let before = missing_spec(granted, required.drop_last());
        if granted.contains(required.last()) {
            before
        } else {
            before.push(required.last())
        }
    }
}

/// The required scopes that are not granted, in order.
pub fn missing_scopes(granted: &Vec<String>, required: &Vec<String>) -> (r: Vec<String>)
    ensures
        text::texts(r@) == missing_spec(text::texts(granted@), text::texts(required@)),
{
    let ghost have = text::texts(granted@);
    let ghost all = text::texts(required@);
    let mut r: Vec<String> = Vec::new();
    let mut i: usize = 0;
    proof {
        assert(all.take(0) =~= Seq::empty());
        assert(text::texts(r@) =~= Seq::empty());
    }
    while i < required.len()
        invariant
            i <= required@.len(),
            have == text::texts(granted@),
            all == text::texts(required@),
            text::texts(r@) == missing_spec(have, all.take(i as int)),
        decreases required@.len() - i,
    {
        let ghost sofar = r@;
        proof {
            assert(all.take(i + 1).drop_last() =~= all.take(i as int));
            assert(all.take(i + 1).last() == required@[i as int]@);
        }
        if !text::list_contains(granted, required[i].as_str()) {
            r.push(required[i].clone());
            assert(text::texts(r@) =~= text::texts(sofar).push(required@[i as int]@));
        }
        i = i + 1;
    }
    proof {
        assert(all.take(i as int) =~= all);
    }
    r
}

/// The action scope step-up should take for a token.
#[derive(Debug, PartialEq, Eq)]
pub enum StepUp {
    /// The token already covers every required scope.
    Covered,
    /// Re-authenticate requesting this scope set (defaults ∪ granted ∪ required).
    Reauthenticate(Vec<String>),
    /// Scopes are missing but the session is non-interactive; carries the
    /// missing scopes for the error message.
    MissingNonInteractive(Vec<String>),
}

/// `s` is what step-up should do.
pub open spec fn is_step_up(
    s: StepUp,
    defaults: Seq<Seq<char>>,
    granted: Seq<Seq<char>>,
    required: Seq<Seq<char>>,
    interactive: bool,
) -> bool {
    let missing = missing_spec(granted, required);
    match s {
        StepUp::Covered => missing.len() == 0,
        StepUp::Reauthenticate(scopes) => missing.len() > 0 && interactive && text::texts(scopes@)
            == union_spec(defaults, granted, required),
        StepUp::MissingNonInteractive(scopes) => missing.len() > 0 && !interactive && text::texts(
            scopes@,
        ) == missing,
    }
}

/// Decides on scope step-up, given what a token already grants and what the
/// command requires.
pub fn plan_step_up(
    defaults: &Vec<String>,
    granted: &Vec<String>,
    required: &Vec<String>,
    interactive: bool,
) -> (r: StepUp)
    ensures
        is_step_up(
            r,
            text::texts(defaults@),
            text::texts(granted@),
            text::texts(required@),
            interactive,
        ),
{
    let missing = missing_scopes(granted, required);
    assert(text::texts(missing@).len() == missing@.len());
    if missing.len() == 0 {
        StepUp::Covered
    } else if interactive {
        StepUp::Reauthenticate(union_scopes(defaults, granted, required))
    } else {
        StepUp::MissingNonInteractive(missing)
    }
}

/// `r` tells whether a fresh token grants what is required.
pub open spec fn is_grant_check(
    r: Result<(), CliCoreError>,
    env: Seq<char>,
    granted: Seq<Seq<char>>,
    required: Seq<Seq<char>>,
) -> bool {
    let missing = missing_spec(granted, required);
    match r {
        Ok(()) => missing.len() == 0,
        Err(e) => missing.len() > 0 && error::is_message(
            e,
            "authorization server did not grant required scope(s) for "@ + text::debug_quoted(env)
                + ": "@ + text::join_spec(missing, ", "@),
        ),
    }
}

/// Confirms that a fresh token grants what is required.
pub fn check_granted(env: &str, granted: &Vec<String>, required: &Vec<String>) -> (r: Result<
    (),
    CliCoreError,
>)
    ensures
        is_grant_check(r, env@, text::texts(granted@), text::texts(required@)),
{
    let missing = missing_scopes(granted, required);
    assert(text::texts(missing@).len() == missing@.len());
    if missing.len() == 0 {
        Ok(())
    } else {
        let mut m = "authorization server did not grant required scope(s) for ".to_owned();
        m.append(text::debug_text(env).as_str());
        m.append(": ");
        m.append(text::join(&missing, ", ").as_str());
        Err(CliCoreError::message(m))
    }
}

/// The options that ask for scopes.
pub open spec fn scope_options(scopes: Seq<Seq<char>>) -> Seq<Seq<char>> {
    scopes.map_values(|s: Seq<char>| "--scope "@ + s)
}

/// Error returned when required scopes are missing and step-up cannot prompt.
pub fn missing_scope_error(env: &str, missing: &Vec<String>) -> (r: CliCoreError)
    ensures
        error::is_message(
            r,
            "access token for "@ + text::debug_quoted(env@) + " is missing required scope(s): "@
                + text::join_spec(text::texts(missing@), ", "@) + "; run `auth login --env "@ + env@
                + " "@ + text::join_spec(scope_options(text::texts(missing@)), " "@)
                + "` in an interactive terminal"@,
        ),
{
    let mut options: Vec<String> = Vec::new();
    let mut i: usize = 0;
    while i < missing.len()
        invariant
            i <= missing@.len(),
            options@.len() == i,
            forall|k: int|
                0 <= k < i ==> (#[trigger] options@[k])@ == "--scope "@ + missing@[k]@,
        decreases missing@.len() - i,
    {
        let mut o = "--scope ".to_owned();
        o.append(missing[i].as_str());
        options.push(o);
        i = i + 1;
    }
    assert(text::texts(options@) =~= scope_options(text::texts(missing@)));
    let mut m = "access token for ".to_owned();
    m.append(text::debug_text(env).as_str());
    m.append(" is missing required scope(s): ");
    m.append(text::join(missing, ", ").as_str());
    m.append("; run `auth login --env ");
    m.append(env);
    m.append(" ");
    m.append(text::join(&options, " ").as_str());
    m.append("` in an interactive terminal");
    CliCoreError::message(m)
}

/// The text of the claim `name`, empty where it is no string.
pub open spec fn claim_text(claims: ClaimsText, name: Seq<char>) -> Seq<char> {
    match claim(claims, name) {
        Some(JsonModel::Text(s)) => s,
        _ => Seq::empty(),
    }
}

/// The first of the named claims, from the name `i` on, that is a non-empty
/// string.
pub open spec fn identity_from(claims: ClaimsText, names: Seq<Seq<char>>, i: int) -> Seq<char>
    decreases names.len() - i,
{
    if i < 0 || names.len() <= i {
        Seq::empty()
    } else if claim_text(claims, names[i]).len() > 0 {
        claim_text(claims, names[i])
    } else {
        identity_from(claims, names, i + 1)
    }
}

/// The text of the claim `name`, empty where it is no string.
pub fn text_claim(claims: &ValueMap, name: &str) -> (r: String)
    ensures
        r@ == claim_text(json::map_models(claims@), name@),
{
    match claims.get(name) {
        Some(v) => match v.as_str() {
            Some(s) => s.to_owned(),
            None => {
                let r = String::new();
                assert(r@ =~= Seq::empty());
                r
            },
        },
        None => {
            let r = String::new();
            assert(r@ =~= Seq::empty());
            r
        },
    }
}

/// Returns the first claim value that is a non-empty string, in priority order.
pub fn extract_identity(claims: &ValueMap, priority: &Vec<String>) -> (r: String)
    ensures
        r@ == identity_from(json::map_models(claims@), text::texts(priority@), 0),
{
    let ghost c = json::map_models(claims@);
    let ghost names = text::texts(priority@);
    let mut i: usize = 0;
    while i < priority.len()
        invariant
            i <= priority@.len(),
            c == json::map_models(claims@),
            names == text::texts(priority@),
            identity_from(c, names, 0) == identity_from(c, names, i as int),
        decreases priority@.len() - i,
    {
        let value = text_claim(claims, priority[i].as_str());
        assert(names[i as int] == priority@[i as int]@);
        if !value.as_str().is_empty() {
            return value;
        }
        i = i + 1;
    }
    let r = String::new();
    assert(r@ =~= Seq::empty());
    r
}

/// A scope is missing exactly where it is required and not granted.
pub proof fn law_missing_is_the_difference(
    granted: Seq<Seq<char>>,
    required: Seq<Seq<char>>,
    scope: Seq<char>,
)
    ensures
        missing_spec(granted, required).contains(scope) <==> required.contains(scope)
            && !granted.contains(scope),
    decreases required.len(),
{
    if required.len() > 0 {
        let init = required.drop_last();
        law_missing_is_the_difference(granted, init, scope);
        let before = missing_spec(granted, init);
        let after = missing_spec(granted, required);
        if init.contains(scope) {
            let i = choose|i: int| 0 <= i < init.len() && init[i] == scope;
            assert(required[i] == scope);
        }
        if required.contains(scope) && scope != required.last() {
            let i = choose|i: int| 0 <= i < required.len() && required[i] == scope;
            assert(init[i] == scope);
        }
        if before.contains(scope) {
            let i = choose|i: int| 0 <= i < before.len() && before[i] == scope;
            assert(after[i] == scope);
        }
        if scope == required.last() {
            assert(required[required.len() - 1] == scope);
            if !granted.contains(scope) {
                assert(after[after.len() - 1] == scope);
            }
        }
        if after.contains(scope) && !before.contains(scope) {
            let i = choose|i: int| 0 <= i < after.len() && after[i] == scope;
            if i < before.len() {
                assert(before[i] == scope);
            }
        }
    }
}

/// A step-up never drops a scope: what is asked for covers the defaults, what is
/// already granted, and what is required, and asks for nothing else.
pub proof fn law_step_up_never_drops_scopes(
    defaults: Seq<Seq<char>>,
    granted: Seq<Seq<char>>,
    required: Seq<Seq<char>>,
)
    ensures
        ({
            let union = union_spec(defaults, granted, required);
            &&& text::covers(union, defaults)
            &&& text::covers(union, granted)
            &&& text::covers(union, required)
            &&& forall|s: Seq<char>| #[trigger]
                union.contains(s) ==> defaults.contains(s) || granted.contains(s)
                    || required.contains(s)
        }),
{
    let some = text::with_missing(defaults, granted);
    text::lemma_with_missing_covers(defaults, granted);
    text::lemma_with_missing_covers(some, required);
    let union = union_spec(defaults, granted, required);
    assert forall|i: int| 0 <= i < defaults.len() implies union.contains(#[trigger] defaults[i]) by {
        assert(some.contains(defaults[i]));
        let j = choose|j: int| 0 <= j < some.len() && some[j] == defaults[i];
        assert(union.contains(some[j]));
    }
    assert forall|i: int| 0 <= i < granted.len() implies union.contains(#[trigger] granted[i]) by {
        assert(some.contains(granted[i]));
        let j = choose|j: int| 0 <= j < some.len() && some[j] == granted[i];
        assert(union.contains(some[j]));
    }
}

/// Once a login granted all that was asked for, no further step-up is needed.
pub proof fn law_granted_step_up_is_enough(
    defaults: Seq<Seq<char>>,
    granted: Seq<Seq<char>>,
    required: Seq<Seq<char>>,
)
    ensures
        missing_spec(union_spec(defaults, granted, required), required).len() == 0,
{
    let union = union_spec(defaults, granted, required);
    law_step_up_never_drops_scopes(defaults, granted, required);
    let missing = missing_spec(union, required);
    if missing.len() > 0 {
        law_missing_is_the_difference(union, required, missing[0]);
        assert(missing.contains(missing[0]));
        let i = choose|i: int| 0 <= i < required.len() && required[i] == missing[0];
        assert(union.contains(required[i]));
    }
}

/// The claims of a token are read from its second part, whatever its header and
/// its signature are.
pub proof fn law_claims_are_the_payload(
    header: Seq<char>,
    payload: Seq<char>,
    signature: Seq<char>,
    bytes: Seq<u8>,
)
    requires
        !header.contains('.'),
        !payload.contains('.'),
        !signature.contains('.'),
    ensures
        encoding::base64_bytes(payload) == Some(bytes) ==> claims_of(
            header + "."@ + payload + "."@ + signature,
        ) == claims_in(bytes),
        encoding::base64_bytes(payload) is None ==> claims_of(
            header + "."@ + payload + "."@ + signature,
        ) is None,
        claims_of(header) is None,
{
    reveal_strlit(".");
    let parts = seq![header, payload, signature];
    assert("."@ =~= seq!['.']);
    reveal_with_fuel(text::join_spec, 3);
    assert(parts.drop_last() =~= seq![header, payload]);
    assert(parts.drop_last().drop_last() =~= seq![header]);
    assert(text::join_spec(parts, seq!['.']) =~= header + "."@ + payload + "."@ + signature);
    text::law_join_is_undone_by_split(parts, '.');
    text::lemma_split_whole(header, '.');
}

/// The claims of a token are what its payload holds under their names, where
/// that is an object, and nothing else counts as claims.
pub proof fn law_claims_are_an_object(bytes: Seq<u8>)
    ensures
        claims_in(bytes) is Some <==> (json_bridge::parsed_bytes(bytes) matches Ok(v)
            && v is Object),
        json_bridge::parsed_bytes(bytes) matches Ok(JsonModel::Object(members)) ==> claims_in(bytes)
            == Some(members),
{
}

/// Scopes that were written with spaces between them, or as a list, are read
/// back as they were.
pub proof fn law_scopes_are_read_back(scopes: Seq<Seq<char>>)
    requires
        forall|i: int| 0 <= i < scopes.len() ==> text::is_word(#[trigger] scopes[i]),
    ensures
        claim_scopes(JsonModel::Text(text::join_spec(scopes, " "@))) == scopes,
        claim_scopes(json::list_model(scopes)) == scopes,
{
    text::lemma_words_of_join(scopes);
    lemma_listed_scopes(scopes);
}

proof fn lemma_listed_scopes(scopes: Seq<Seq<char>>)
    requires
        forall|i: int| 0 <= i < scopes.len() ==> text::is_word(#[trigger] scopes[i]),
    ensures
        list_scopes(json::text_models(scopes)) == scopes,
    decreases scopes.len(),
{
    let all = json::text_models(scopes);
    if scopes.len() > 0 {
        let init = scopes.drop_last();
        assert forall|i: int| 0 <= i < init.len() implies text::is_word(#[trigger] init[i]) by {
            assert(init[i] == scopes[i]);
        }
        lemma_listed_scopes(init);
        assert(all.drop_last() =~= json::text_models(init));
        assert(all.last() == JsonModel::Text(scopes.last()));
        let one = seq![scopes.last()];
        assert(scopes[scopes.len() - 1] == scopes.last());
        text::lemma_words_of_join(one);
        assert(text::join_spec(one, " "@) == scopes.last());
        assert(init + one =~= scopes);
    } else {
        assert(scopes =~= Seq::empty());
    }
}

/// The claim `scope` comes before `scp`, which is read only where the first
/// grants nothing.
pub proof fn law_scope_comes_before_scp(claims: ClaimsText, value: JsonModel)
    ensures
        claim_scopes(value).len() > 0 ==> scopes_in(Some(claims.insert("scope"@, value)))
            == claim_scopes(value),
        scopes_in(Some(claims.remove("scope"@).insert("scp"@, value))) == claim_scopes(value),
        scopes_in(Some(claims.remove("scope"@).remove("scp"@))).len() == 0,
        scopes_in(None).len() == 0,
{
    reveal_strlit("scope");
    reveal_strlit("scp");
    assert("scope"@.len() == 5);
    assert("scp"@.len() == 3);
}

/// The identity is the first of the named claims that is a text and not empty.
pub proof fn law_first_named_claim_is_the_identity(
    claims: ClaimsText,
    names: Seq<Seq<char>>,
    k: int,
    identity: Seq<char>,
)
    requires
        0 <= k < names.len(),
        claims.dom().contains(names[k]),
        claims[names[k]] == JsonModel::Text(identity),
        identity.len() > 0,
        forall|i: int|
            0 <= i < k ==> !claims.dom().contains(#[trigger] names[i]) || !(claims[names[i]] is Text)
                || claims[names[i]] == JsonModel::Text(Seq::empty()),
    ensures
        identity_from(claims, names, 0) == identity,
{
    lemma_identity_from(claims, names, 0, k);
}

proof fn lemma_identity_from(claims: ClaimsText, names: Seq<Seq<char>>, i: int, k: int)
    requires
        0 <= i <= k < names.len(),
        claim_text(claims, names[k]).len() > 0,
        forall|j: int| i <= j < k ==> claim_text(claims, #[trigger] names[j]).len() == 0,
    ensures
        identity_from(claims, names, i) == claim_text(claims, names[k]),
    decreases k - i,
{
    if i < k {
        assert(claim_text(claims, names[i]).len() == 0);
        lemma_identity_from(claims, names, i + 1, k);
    }
}

/// A step-up is needed exactly where a required scope is not granted. It
/// re-authenticates where the session can prompt, and else names just the
/// scopes that are missing.
pub proof fn law_step_up_only_where_needed(
    s: StepUp,
    defaults: Seq<Seq<char>>,
    granted: Seq<Seq<char>>,
    required: Seq<Seq<char>>,
    interactive: bool,
    scope: Seq<char>,
)
    requires
        is_step_up(s, defaults, granted, required, interactive),
    ensures
        s is Covered <==> text::covers(granted, required),
        s is Reauthenticate <==> !text::covers(granted, required) && interactive,
        s is MissingNonInteractive <==> !text::covers(granted, required) && !interactive,
        s matches StepUp::MissingNonInteractive(missing) ==> (text::texts(missing@).contains(scope)
            <==> required.contains(scope) && !granted.contains(scope)),
{
    let missing = missing_spec(granted, required);
    law_missing_is_the_difference(granted, required, scope);
    if missing.len() > 0 {
        assert(missing.contains(missing[0]));
        law_missing_is_the_difference(granted, required, missing[0]);
        let i = choose|i: int| 0 <= i < required.len() && required[i] == missing[0];
        assert(!granted.contains(required[i]));
    } else {
        assert forall|i: int| 0 <= i < required.len() implies granted.contains(
            #[trigger] required[i],
        ) by {
            law_missing_is_the_difference(granted, required, required[i]);
        }
    }
}

/// A fresh token is accepted exactly where it grants every required scope.
pub proof fn law_fresh_token_grants_what_is_required(
    r: Result<(), CliCoreError>,
    env: Seq<char>,
    granted: Seq<Seq<char>>,
    required: Seq<Seq<char>>,
)
    requires
        is_grant_check(r, env, granted, required),
    ensures
        r is Ok <==> text::covers(granted, required),
{
    let missing = missing_spec(granted, required);
    if missing.len() > 0 {
        assert(missing.contains(missing[0]));
        law_missing_is_the_difference(granted, required, missing[0]);
        let i = choose|i: int| 0 <= i < required.len() && required[i] == missing[0];
        assert(!granted.contains(required[i]));
    } else {
        assert forall|i: int| 0 <= i < required.len() implies granted.contains(
            #[trigger] required[i],
        ) by {
            law_missing_is_the_difference(granted, required, required[i]);
        }
    }
}

/// What is no text in a list of scopes does not matter, and a claim that is
/// neither a text nor a list grants nothing.
pub proof fn law_only_texts_are_scopes(items: Seq<JsonModel>, item: JsonModel)
    requires
        !(item is Text),
    ensures
        claim_scopes(JsonModel::Array(items.push(item))) == claim_scopes(JsonModel::Array(items)),
        !(item is Array) ==> claim_scopes(item).len() == 0,
{
    assert(items.push(item).drop_last() =~= items);
}

} // verus!
