//! The settings of a run, from the environment's variables.

use vstd::prelude::*;

use crate::text::{
    ascii_lower, eq_ignore_ascii_case, is_white_space, lemma_trimmed_away, parse_usize,
    same_ignoring_ascii_case, same_text, trim, trimmed, unsigned_number,
};

verus! {

/// The source of tracking numbers where none is named.
pub const DEFAULT_NUM_TYPE: &'static str = "big";

/// The settings of a run.
pub struct Config {
    pub client_id: String,
    pub client_secret: String,
    /// The source of tracking numbers.
    pub num_type: String,
    /// How many look-ups run at a time.
    pub workers: usize,
    pub use_proxy: bool,
}

/// Why there are no settings.
#[derive(Clone, Copy, PartialEq, Eq, Structural, Debug)]
pub enum ConfigError {
    MissingClientId,
    MissingClientSecret,
}

/// Whether a variable is set to more than white space.
pub open spec fn is_given(variable: Option<String>) -> bool {
    variable matches Some(text) && trimmed(text@).len() > 0
}

/// How many look-ups run at a time: one, unless the variable is a number.
pub open spec fn worker_count(variable: Option<String>) -> nat {
    match variable {
        Some(text) => match unsigned_number(text@, usize::MAX as nat) {
            Some(n) => n,
            None => 1,
        },
        None => 1,
    }
}

/// Whether a switch is on.
pub open spec fn is_on(variable: Option<String>) -> bool {
    variable matches Some(text) && (text@ == "1"@ || same_ignoring_ascii_case(text@, "true"@))
}

/// The text of a variable that is set to more than white space.
fn given(variable: Option<String>) -> (r: Option<String>)
    ensures
        is_given(variable) ==> r == variable,
        !is_given(variable) ==> r is None,
{
    match variable {
        Some(text) => if trim(text.as_str()).as_str().is_empty() {
            None
        } else {
            Some(text)
        },
        None => None,
    }
}

impl Config {
    /// The settings that the variables make; each is `None` where it is not set.
    pub fn from_vars(
        client_id: Option<String>,
        client_secret: Option<String>,
        num_type: Option<String>,
        workers: Option<String>,
        use_proxy: Option<String>,
    ) -> (r: Result<Config, ConfigError>)
        ensures
            match r {
                Ok(config) => {
                    &&& is_given(client_id) && config.client_id@ == client_id->0@
                    &&& is_given(client_secret) && config.client_secret@ == client_secret->0@
                    &&& config.num_type@ == (match num_type {
                        Some(text) => text@,
                        None => DEFAULT_NUM_TYPE@,
                    })
                    &&& config.workers == worker_count(workers)
                    &&& config.use_proxy == is_on(use_proxy)
                },
                Err(ConfigError::MissingClientId) => !is_given(client_id),
                Err(ConfigError::MissingClientSecret) => is_given(client_id) && !is_given(
                    client_secret,
                ),
            },
    {
        let client_id: String = match given(client_id) {
            Some(text) => text,
            None => {
                return Err(ConfigError::MissingClientId);
            },
        };
        let client_secret: String = match given(client_secret) {
            Some(text) => text,
            None => {
                return Err(ConfigError::MissingClientSecret);
            },
        };
        let num_type: String = match num_type {
            Some(text) => text,
            None => DEFAULT_NUM_TYPE.to_string(),
        };
        let workers: usize = match workers {
            Some(text) => match parse_usize(text.as_str()) {
                Some(n) => n,
                None => 1,
            },
            None => 1,
        };
        let use_proxy: bool = match use_proxy {
            Some(text) => same_text(text.as_str(), "1") || eq_ignore_ascii_case(text.as_str(), "true"),
            None => false,
        };
        Ok(Config { client_id, client_secret, num_type, workers, use_proxy })
    }
}

/// There are settings exactly if both the client's name and its secret are set to more than white
/// space; the first of the two that is not is the one that is missed. Both are taken as they are.
pub proof fn law_the_client_must_be_named(
    client_id: Option<String>,
    client_secret: Option<String>,
    num_type: Option<String>,
    workers: Option<String>,
    use_proxy: Option<String>,
    r: Result<Config, ConfigError>,
)
    requires
        call_ensures(
            Config::from_vars,
            (client_id, client_secret, num_type, workers, use_proxy),
            r,
        ),
    ensures
        ({
            let has_id = client_id is Some && exists|i: int|
                0 <= i < client_id->0@.len() && !is_white_space(#[trigger] client_id->0@[i]);
            let has_secret = client_secret is Some && exists|i: int|
                0 <= i < client_secret->0@.len() && !is_white_space(
                    #[trigger] client_secret->0@[i],
                );
            &&& has_id && has_secret <==> r is Ok
            &&& !has_id ==> r == Err::<Config, ConfigError>(ConfigError::MissingClientId)
            &&& has_id && !has_secret ==> r == Err::<Config, ConfigError>(
                ConfigError::MissingClientSecret,
            )
            &&& r is Ok ==> r->Ok_0.client_id@ == client_id->0@ && r->Ok_0.client_secret@
                == client_secret->0@
        }),
{
    if client_id is Some {
        lemma_trimmed_away(client_id->0@);
    }
    if client_secret is Some {
        lemma_trimmed_away(client_secret->0@);
    }
}

/// The source is the one that is named, `big` where none is; as many workers as the variable says
/// run, one where it says no number; and proxies are used exactly if the variable is `1` or, in
/// whatever case, `true`.
pub proof fn law_settings_have_defaults(
    client_id: Option<String>,
    client_secret: Option<String>,
    num_type: Option<String>,
    workers: Option<String>,
    use_proxy: Option<String>,
    r: Result<Config, ConfigError>,
)
    requires
        call_ensures(
            Config::from_vars,
            (client_id, client_secret, num_type, workers, use_proxy),
            r,
        ),
        r is Ok,
    ensures
        num_type is Some ==> r->Ok_0.num_type@ == num_type->0@,
        num_type is None ==> r->Ok_0.num_type@ == "big"@,
        ({
            let number = unsigned_number(workers->0@, usize::MAX as nat);
            if workers is Some && number is Some {
                r->Ok_0.workers == number->0
            } else {
                r->Ok_0.workers == 1
            }
        }),
        r->Ok_0.use_proxy <==> use_proxy is Some && {
            let text = use_proxy->0@;
            text == seq!['1'] || (text.len() == 4 && (text[0] == 't' || text[0] == 'T') && (text[1]
                == 'r' || text[1] == 'R') && (text[2] == 'u' || text[2] == 'U') && (text[3] == 'e'
                || text[3] == 'E'))
        },
{
    reveal_strlit("1");
    reveal_strlit("true");
    assert("1"@ =~= seq!['1']);
    if use_proxy is Some {
        let text = use_proxy->0@;
        let word = "true"@;
        if text.len() == 4 && ascii_lower(text[0]) == 't' && ascii_lower(text[1]) == 'r'
            && ascii_lower(text[2]) == 'u' && ascii_lower(text[3]) == 'e' {
            assert(same_ignoring_ascii_case(text, word));
        }
        if same_ignoring_ascii_case(text, word) {
            assert(ascii_lower(text[0]) == ascii_lower(word[0]));
            assert(ascii_lower(text[1]) == ascii_lower(word[1]));
            assert(ascii_lower(text[2]) == ascii_lower(word[2]));
            assert(ascii_lower(text[3]) == ascii_lower(word[3]));
        }
    }
}

} // verus!
