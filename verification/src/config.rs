//! The style configuration and the command line's values.

use crate::number::{parse_unsigned, read_unsigned};
use crate::text::to_chars;
use vstd::prelude::*;
use vstd::slice::slice_subrange;

verus! {

/// The style that lines are held to.
#[derive(Clone, Copy, Debug, PartialEq, Eq, Structural)]
pub struct Config {
    /// Tabs are to be replaced by spaces.
    pub expand_tabs: bool,
    /// The number of columns that one tab occupies.
    pub tab_size: usize,
    /// The greatest visible length that a line may have.
    pub line_length: usize,
}

impl Config {
    /// The configuration used where nothing else is asked for: tabs are
    /// kept, a tab is four columns wide and a line has at most eighty.
    pub open spec fn standard() -> Config {
        Config { expand_tabs: false, tab_size: 4, line_length: 80 }
    }
}

impl Default for Config {
    fn default() -> (r: Config)
        ensures
            r == Config::standard(),
    {
        Config { expand_tabs: false, tab_size: 4, line_length: 80 }
    }
}

/// What the command line supplies: the base configuration and the files to
/// process.
#[derive(Clone, Debug)]
pub struct Args {
    /// The configuration that holds for every file without a modeline.
    pub config: Config,
    /// The paths of the files to process.
    pub file: Vec<String>,
}

/// The number of characters of `s` before its first space; the length of
/// `s` where it has none.
pub open spec fn first_space(s: Seq<char>) -> nat
    decreases s.len(),
{
    if s.len() == 0 || s[0] == ' ' {
        0
    } else {
        1 + first_space(s.skip(1))
    }
}

/// The tokens of `s`: the runs of characters between its spaces. Two
/// spaces in a row, and a space at either end, give an empty token.
pub open spec fn tokens_of(s: Seq<char>) -> Seq<Seq<char>>
    decreases s.len(),
{
    let k = first_space(s) as int;
    if 0 <= k < s.len() {
        seq![s.take(k)] + tokens_of(s.skip(k + 1))
    } else {
        seq![s]
    }
}

/// The token starts with `ts=`.
pub open spec fn sets_tab_size(token: Seq<char>) -> bool {
    token.len() >= 3 && token[0] == 't' && token[1] == 's' && token[2] == '='
}

/// The configuration after one token of a modeline: `et` and `noet` switch
/// the expansion of tabs on and off, `ts=` with an unsigned number behind
/// it sets the size of a tab, and every other token changes nothing.
pub open spec fn apply_token(config: Config, token: Seq<char>) -> Config {
    if token == seq!['e', 't'] {
        Config { expand_tabs: true, ..config }
    } else if token == seq!['n', 'o', 'e', 't'] {
        Config { expand_tabs: false, ..config }
    } else if sets_tab_size(token) {
        match parse_unsigned(token.skip(3)) {
            Some(n) => Config { tab_size: n, ..config },
            None => config,
        }
    } else {
        config
    }
}

/// The configuration after `tokens`, taken from left to right.
pub open spec fn apply_tokens(config: Config, tokens: Seq<Seq<char>>) -> Config
    decreases tokens.len(),
{
    if tokens.len() == 0 {
        config
    } else {
        apply_token(apply_tokens(config, tokens.drop_last()), tokens.last())
    }
}

/// The configuration that the modeline `modeline` makes of `config`.
pub open spec fn resolved(config: Config, modeline: Seq<char>) -> Config {
    apply_tokens(config, tokens_of(modeline))
}

/// The first space of a sequence lies within it, no space stands before
/// it, and it is a space unless the sequence has none.
pub proof fn lemma_first_space(s: Seq<char>)
    ensures
        first_space(s) <= s.len(),
        forall|k: int| 0 <= k < first_space(s) ==> #[trigger] s[k] != ' ',
        first_space(s) < s.len() ==> s[first_space(s) as int] == ' ',
    decreases s.len(),
{
    if s.len() > 0 && s[0] != ' ' {
        let rest = s.skip(1);
        lemma_first_space(rest);
        assert forall|k: int| 0 <= k < first_space(s) implies #[trigger] s[k] != ' ' by {
            if k > 0 {
                assert(s[k] == rest[k - 1]);
            }
        }
    }
}

/// The place `j` is the first space of `s` if no space stands before it
/// and one stands at it, or the sequence ends there.
pub proof fn lemma_first_space_at(s: Seq<char>, j: int)
    requires
        0 <= j <= s.len(),
        forall|k: int| 0 <= k < j ==> #[trigger] s[k] != ' ',
        j < s.len() ==> s[j] == ' ',
    ensures
        first_space(s) == j,
{
    lemma_first_space(s);
}

/// A modeline never changes the greatest length of a line.
pub proof fn tokens_keep_line_length(config: Config, tokens: Seq<Seq<char>>)
    ensures
        apply_tokens(config, tokens).line_length == config.line_length,
    decreases tokens.len(),
{
    if tokens.len() > 0 {
        tokens_keep_line_length(config, tokens.drop_last());
    }
}

/// Tokens are applied in order: the configuration after two runs of tokens
/// is what the second run makes of what the first run made. So of two
/// tokens for one setting the later one wins.
pub proof fn tokens_apply_in_order(
    config: Config,
    first: Seq<Seq<char>>,
    second: Seq<Seq<char>>,
)
    ensures
        apply_tokens(config, first + second) == apply_tokens(apply_tokens(config, first), second),
    decreases second.len(),
{
    if second.len() == 0 {
        assert(first + second == first);
    } else {
        tokens_apply_in_order(config, first, second.drop_last());
        assert((first + second).drop_last() == first + second.drop_last());
    }
}

/// Applies one token of a modeline to `config`.
pub fn with_token(config: Config, token: &[char]) -> (r: Config)
    ensures
        r == apply_token(config, token@),
{
    let n: usize = token.len();
    if n == 2 && token[0] == 'e' && token[1] == 't' {
        assert(token@ == seq!['e', 't']);
        Config { expand_tabs: true, tab_size: config.tab_size, line_length: config.line_length }
    } else if n == 4 && token[0] == 'n' && token[1] == 'o' && token[2] == 'e' && token[3] == 't' {
        assert(token@ == seq!['n', 'o', 'e', 't']);
        Config { expand_tabs: false, tab_size: config.tab_size, line_length: config.line_length }
    } else if n >= 3 && token[0] == 't' && token[1] == 's' && token[2] == '=' {
        match read_unsigned(token, 3) {
            Some(size) => Config {
                expand_tabs: config.expand_tabs,
                tab_size: size,
                line_length: config.line_length,
            },
            None => config,
        }
    } else {
        config
    }
}

/// The configuration that a modeline makes of `config`. The modeline is
/// split at each single space, and its tokens are applied from left to
/// right, so that the later of two tokens for one setting wins. A token
/// `ts=` whose number cannot be read leaves the size of a tab as it was.
pub fn config_from_modeline(config: Config, modeline: &str) -> (r: Config)
    ensures
        r == resolved(config, modeline@),
{
    let chars = to_chars(modeline);
    let all = chars.as_slice();
    let mut result = config;
    let mut at: usize = 0;
    let ghost mut done: Seq<Seq<char>> = Seq::empty();
    assert(all@.skip(0) == all@);
    loop
        invariant
            at <= all@.len(),
            all@ == modeline@,
            tokens_of(all@) == done + tokens_of(all@.skip(at as int)),
            result == apply_tokens(config, done),
        decreases all@.len() - at,
    {
        let ghost rest = all@.skip(at as int);
        let mut end: usize = at;
        while end < all.len() && all[end] != ' '
            invariant
                at <= end <= all@.len(),
                rest == all@.skip(at as int),
                forall|k: int| 0 <= k < end - at ==> #[trigger] rest[k] != ' ',
            decreases all@.len() - end,
        {
            end += 1;
        }
        proof {
            lemma_first_space_at(rest, end - at);
        }
        let token = slice_subrange(all, at, end);
        assert(rest.take(end - at) == token@);
        assert(done.push(token@).drop_last() == done);
        result = with_token(result, token);
        if end >= all.len() {
            assert(done + seq![token@] == done.push(token@));
            return result;
        }
        proof {
            assert(rest.skip(end - at + 1) == all@.skip(end + 1));
            done = done.push(token@);
        }
        at = end + 1;
    }
}

} // verus!
