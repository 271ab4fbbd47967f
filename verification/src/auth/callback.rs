//! The local server that receives the OAuth callback: what its requests say and
//! what they are answered.
use crate::auth::encoding::parse_form;
use crate::auth::encoding;
use crate::error::CliCoreError;
use crate::error;
use crate::guide;
use crate::text;
use vstd::prelude::*;
use vstd::string::*;

verus! {

/// The second word of the first line of a request.
pub open spec fn target_of(request: Seq<char>) -> Option<Seq<char>> {
    let words = text::words(text::split_spec(request, '\n')[0]);
    if words.len() > 1 {
        Some(words[1])
    } else {
        None
    }
}

/// The place of the first `?`, or the length.
pub open spec fn query_at(target: Seq<char>) -> int
    decreases target.len(),
{
    if target.len() == 0 {
        0
    } else if target[0] == '?' {
        0
    } else {
        1 + query_at(target.skip(1))
    }
}

/// The path of a request target: what stands before its first `?`.
pub open spec fn path_of(target: Seq<char>) -> Seq<char> {
    target.take(query_at(target))
}

/// The query of a request target: what stands behind its first `?`.
pub open spec fn query_of(target: Seq<char>) -> Option<Seq<char>> {
    if query_at(target) < target.len() {
        Some(target.skip(query_at(target) + 1))
    } else {
        None
    }
}

fn request_target(request: &str) -> (r: Option<String>)
    ensures
        error::opt_text(r) == target_of(request@),
{
    let lines = text::split_char(request, '\n');
    proof {
        text::lemma_split_nonempty(request@, '\n');
        assert(text::texts(lines@).len() == lines@.len());
    }
    let words = text::split_whitespace(lines[0].as_str());
    assert(text::texts(words@).len() == words@.len());
    if words.len() > 1 {
        Some(words[1].clone())
    } else {
        None
    }
}

fn find_query(chars: &Vec<char>) -> (n: usize)
    ensures
        n == query_at(chars@),
        n <= chars@.len(),
{
    let mut i: usize = 0;
    assert(chars@.skip(0) =~= chars@);
    while i < chars.len()
        invariant
            i <= chars@.len(),
            query_at(chars@) == i + query_at(chars@.skip(i as int)),
        decreases chars@.len() - i,
    {
        proof {
            assert(chars@.skip(i as int).skip(1) =~= chars@.skip(i + 1));
        }
        if chars[i] == '?' {
            return i;
        }
        i = i + 1;
    }
    i
}

/// The path that a request asks for.
pub open spec fn request_path(request: Seq<char>) -> Option<Seq<char>> {
    match target_of(request) {
        Some(t) => Some(path_of(t)),
        None => None,
    }
}

/// Extracts the path component from an HTTP request line (without query string).
pub fn extract_request_path(request: &str) -> (r: Option<String>)
    ensures
        error::opt_text(r) == request_path(request@),
{
    match request_target(request) {
        Some(t) => {
            let chars = text::chars_of(t.as_str());
            let n: usize = find_query(&chars);
            let path = text::substring_of(&chars, 0, n);
            assert(path@ =~= path_of(t@));
            Some(path)
        },
        None => None,
    }
}

/// The value of the first pair, from the pair `i` on, with the name.
pub open spec fn first_value(
    pairs: Seq<(Seq<char>, Seq<char>)>,
    name: Seq<char>,
    i: int,
) -> Option<Seq<char>>
    decreases pairs.len() - i,
{
    if i < 0 || pairs.len() <= i {
        None
    } else if pairs[i].0 == name {
        Some(pairs[i].1)
    } else {
        first_value(pairs, name, i + 1)
    }
}

/// The value of a query parameter of a request.
pub open spec fn request_param(request: Seq<char>, name: Seq<char>) -> Option<Seq<char>> {
    match target_of(request) {
        Some(t) => match query_of(t) {
            Some(q) => first_value(encoding::form_pairs(q), name, 0),
            None => None,
        },
        None => None,
    }
}

/// The value of the first pair with the name.
pub fn value_of(pairs: &Vec<(String, String)>, name: &str) -> (r: Option<String>)
    ensures
        error::opt_text(r) == first_value(encoding::pair_texts(pairs@), name@, 0),
{
    let ghost all = encoding::pair_texts(pairs@);
    let mut i: usize = 0;
    while i < pairs.len()
        invariant
            i <= pairs@.len(),
            all == encoding::pair_texts(pairs@),
            first_value(all, name@, 0) == first_value(all, name@, i as int),
        decreases pairs@.len() - i,
    {
        assert(all[i as int] == (pairs@[i as int].0@, pairs@[i as int].1@));
        if text::str_eq(pairs[i].0.as_str(), name) {
            return Some(pairs[i].1.clone());
        }
        i = i + 1;
    }
    None
}

/// Extracts a query parameter value from an HTTP request line.
pub fn extract_query_param(request: &str, name: &str) -> (r: Option<String>)
    ensures
        error::opt_text(r) == request_param(request@, name@),
{
    match request_target(request) {
        Some(t) => {
            let chars = text::chars_of(t.as_str());
            let n: usize = find_query(&chars);
            if n < chars.len() {
                let query = text::substring_of(&chars, n + 1, chars.len());
                assert(query@ =~= t@.skip(n + 1));
                let pairs = parse_form(query.as_str());
                value_of(&pairs, name)
            } else {
                None
            }
        },
        None => None,
    }
}

/// The answer to a request for another path.
pub const NOT_FOUND: &'static str = "HTTP/1.1 404 Not Found\r\nContent-Length: 0\r\n\r\n";

/// The answer to a callback with a code and the right state.
pub const SUCCESS_PAGE: &'static str = "HTTP/1.1 200 OK\r\nContent-Type: text/html\r\n\r\n<html><body>Authentication successful. You may close this window.</body></html>";

/// The answer to any other callback.
pub const FAILURE_PAGE: &'static str = "HTTP/1.1 400 Bad Request\r\nContent-Type: text/html\r\n\r\n<html><body>Authentication failed. Please try again.</body></html>";

/// What is done with a request to the callback server.
pub enum CallbackStep {
    /// The response is sent and the next request awaited.
    Again {
        /// What is sent.
        response: String,
    },
    /// The response is sent and the wait is over.
    Finished {
        /// What is sent.
        response: String,
        /// The authorization code, or the error.
        code: Result<String, CliCoreError>,
    },
}

/// `s` is what is done with a callback that has this code and this state.
pub open spec fn is_callback_step(
    s: CallbackStep,
    code: Option<Seq<char>>,
    state: Option<Seq<char>>,
    expected_state: Seq<char>,
) -> bool {
    if state != Some(expected_state) {
        s matches CallbackStep::Again { response } && response@ == FAILURE_PAGE@
    } else {
        match code {
            Some(c) => s matches CallbackStep::Finished { response, code: Ok(got) } && response@
                == SUCCESS_PAGE@ && got@ == c,
            None => s matches CallbackStep::Finished { response, code: Err(e) } && response@
                == FAILURE_PAGE@ && error::is_message(e, "no authorization code in callback"@),
        }
    }
}

/// What is done with a callback that has this code and this state. Only the
/// right state ends the wait.
pub fn callback_step(
    code: Option<String>,
    state: Option<String>,
    expected_state: &str,
) -> (r: CallbackStep)
    ensures
        is_callback_step(r, error::opt_text(code), error::opt_text(state), expected_state@),
{
    let right = match &state {
        Some(s) => text::str_eq(s.as_str(), expected_state),
        None => false,
    };
    if !right {
        return CallbackStep::Again { response: FAILURE_PAGE.to_owned() };
    }
    match code {
        Some(c) => CallbackStep::Finished { response: SUCCESS_PAGE.to_owned(), code: Ok(c) },
        None => CallbackStep::Finished {
            response: FAILURE_PAGE.to_owned(),
            code: Err(CliCoreError::message("no authorization code in callback".to_owned())),
        },
    }
}

/// `s` is what is done with a request to the callback server. A request for
/// another path is answered and does not end the wait.
pub open spec fn is_answer(
    s: CallbackStep,
    request: Seq<char>,
    expected_state: Seq<char>,
    expected_path: Seq<char>,
) -> bool {
    if request_path(request) != Some(expected_path) {
        s matches CallbackStep::Again { response } && response@ == NOT_FOUND@
    } else {
        is_callback_step(
            s,
            request_param(request, "code"@),
            request_param(request, "state"@),
            expected_state,
        )
    }
}

/// What is done with a request to the callback server. A request for another
/// path is answered and does not end the wait.
pub fn answer_callback(request: &str, expected_state: &str, expected_path: &str) -> (r:
    CallbackStep)
    ensures
        is_answer(r, request@, expected_state@, expected_path@),
{
    let right = match extract_request_path(request) {
        Some(p) => text::str_eq(p.as_str(), expected_path),
        None => false,
    };
    if !right {
        return CallbackStep::Again { response: NOT_FOUND.to_owned() };
    }
    let code = extract_query_param(request, "code");
    let state = extract_query_param(request, "state");
    callback_step(code, state, expected_state)
}

/// What is done with the bytes of a request to the callback server.
pub fn answer_request(request: &Vec<u8>, expected_state: &str, expected_path: &str) -> (r:
    CallbackStep)
    ensures
        is_answer(r, guide::lossy_text(request@), expected_state@, expected_path@),
{
    let text = guide::decode_lossy(request);
    answer_callback(text.as_str(), expected_state, expected_path)
}

/// A callback with another state never ends the wait, whatever code it brings.
pub proof fn law_wrong_state_is_not_accepted(
    s: CallbackStep,
    code: Option<Seq<char>>,
    state: Option<Seq<char>>,
    expected_state: Seq<char>,
)
    requires
        state != Some(expected_state),
        is_callback_step(s, code, state, expected_state),
    ensures
        s is Again,
{
}

/// A callback with the right state ends the wait: with its own code and the
/// page of success where it has one, else with the error and the other page.
pub proof fn law_right_state_ends_the_wait(
    s: CallbackStep,
    request: Seq<char>,
    expected_state: Seq<char>,
    expected_path: Seq<char>,
)
    requires
        is_answer(s, request, expected_state, expected_path),
        request_path(request) == Some(expected_path),
        request_param(request, "state"@) == Some(expected_state),
    ensures
        s matches CallbackStep::Finished { response, code } && {
            &&& request_param(request, "code"@) matches Some(c) ==> (code matches Ok(got) && got@
                == c) && response@ == SUCCESS_PAGE@
            &&& request_param(request, "code"@) is None ==> code is Err && response@
                == FAILURE_PAGE@
        },
{
}

/// A request for another path, and one with another state or none, leaves the
/// wait going: the first is not found, the second has failed.
pub proof fn law_other_requests_leave_the_wait(
    s: CallbackStep,
    request: Seq<char>,
    expected_state: Seq<char>,
    expected_path: Seq<char>,
)
    requires
        is_answer(s, request, expected_state, expected_path),
    ensures
        request_path(request) != Some(expected_path) ==> (s matches CallbackStep::Again { response }
            && response@ == NOT_FOUND@),
        request_path(request) == Some(expected_path) && request_param(request, "state"@) != Some(
            expected_state,
        ) ==> (s matches CallbackStep::Again { response } && response@ == FAILURE_PAGE@),
{
}

/// A target is its path, and where it has a query, a question mark and the
/// query; the path holds no question mark.
pub proof fn law_target_is_path_and_query(target: Seq<char>)
    ensures
        !path_of(target).contains('?'),
        query_of(target) matches Some(q) ==> target == path_of(target).push('?') + q,
        query_of(target) is None ==> target == path_of(target),
{
    lemma_query_at(target);
    let path = path_of(target);
    if path.contains('?') {
        let i = choose|i: int| 0 <= i < path.len() && path[i] == '?';
        assert(target[i] != '?');
    }
    if query_at(target) < target.len() {
        assert(target =~= path.push('?') + target.skip(query_at(target) + 1));
    } else {
        assert(target =~= path);
    }
}

proof fn lemma_query_at(target: Seq<char>)
    ensures
        0 <= query_at(target) <= target.len(),
        query_at(target) < target.len() ==> target[query_at(target)] == '?',
        forall|i: int| 0 <= i < query_at(target) ==> #[trigger] target[i] != '?',
    decreases target.len(),
{
    if target.len() > 0 && target[0] != '?' {
        let rest = target.skip(1);
        lemma_query_at(rest);
        assert forall|i: int| 0 <= i < query_at(target) implies #[trigger] target[i] != '?' by {
            if i > 0 {
                assert(rest[i - 1] != '?');
            }
        }
    }
}

/// The target of a request is the second word of its first line, whatever
/// stands in the lines below.
pub proof fn law_target_is_in_the_first_line(
    method: Seq<char>,
    target: Seq<char>,
    version: Seq<char>,
    rest: Seq<char>,
)
    requires
        text::is_word(method),
        text::is_word(target),
        text::is_word(version),
    ensures
        target_of(method + " "@ + target + " "@ + version + "\n"@ + rest) == Some(target),
        request_path(method + " "@ + target + " "@ + version + "\n"@ + rest) == Some(
            path_of(target),
        ),
{
    reveal_strlit(" ");
    reveal_strlit("\n");
    let parts = seq![method, target, version];
    let line = text::join_spec(parts, " "@);
    reveal_with_fuel(text::join_spec, 3);
    assert(parts.drop_last() =~= seq![method, target]);
    assert(parts.drop_last().drop_last() =~= seq![method]);
    assert(line =~= method + " "@ + target + " "@ + version);
    text::lemma_words_of_join(parts);
    assert(line.push('\n') + rest =~= method + " "@ + target + " "@ + version + "\n"@ + rest);
    assert forall|i: int| 0 <= i < line.len() implies line[i] != '\n' by {
        let a: int = method.len() as int;
        let b: int = a + 1 + target.len();
        if i < a {
            assert(line[i] == method[i]);
        } else if i == a || i == b {
            assert(line[i] == ' ');
        } else if i < b {
            assert(line[i] == target[i - a - 1]);
        } else {
            assert(line[i] == version[i - b - 1]);
        }
    }
    text::lemma_first_part_is(line, '\n', rest);
}

/// A parameter of a request has the value of the first pair of its name in the
/// query.
pub proof fn law_parameter_is_the_first_of_its_name(
    request: Seq<char>,
    name: Seq<char>,
    k: int,
)
    requires
        target_of(request) is Some,
        query_of(target_of(request)->0) is Some,
        0 <= k < encoding::form_pairs(query_of(target_of(request)->0)->0).len(),
        encoding::form_pairs(query_of(target_of(request)->0)->0)[k].0 == name,
        forall|i: int|
            0 <= i < k ==> (#[trigger] encoding::form_pairs(
                query_of(target_of(request)->0)->0,
            )[i]).0 != name,
    ensures
        request_param(request, name) == Some(
            encoding::form_pairs(query_of(target_of(request)->0)->0)[k].1,
        ),
{
    lemma_first_value(encoding::form_pairs(query_of(target_of(request)->0)->0), name, 0, k);
}

proof fn lemma_first_value(
    pairs: Seq<(Seq<char>, Seq<char>)>,
    name: Seq<char>,
    i: int,
    k: int,
)
    requires
        0 <= i <= k < pairs.len(),
        pairs[k].0 == name,
        forall|j: int| i <= j < k ==> (#[trigger] pairs[j]).0 != name,
    ensures
        first_value(pairs, name, i) == Some(pairs[k].1),
    decreases k - i,
{
    if i < k {
        assert(pairs[i].0 != name);
        lemma_first_value(pairs, name, i + 1, k);
    }
}

} // verus!
