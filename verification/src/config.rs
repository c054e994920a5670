//! The startup configuration: a base directory for the store's file and the
//! form's field labels, built from the raw values that the surrounding
//! program reads out of the configuration file.

use vstd::prelude::*;
use crate::text::push_char;
use vstd::string::{StrSliceExecFns, StringExecFns};

verus! {

/// The form's field labels, as the configuration file names them.
#[derive(Debug)]
pub struct Fields {
    pub input: String,
    pub login: String,
    pub service: String,
}

impl Default for Fields {
    fn default() -> (f: Fields)
        ensures
            f.input@.len() == 0,
            f.login@.len() == 0,
            f.service@.len() == 0,
    {
        Fields { input: String::new(), login: String::new(), service: String::new() }
    }
}

/// The startup configuration: the base directory the store resolves its file
/// against, and the field labels.
#[derive(Debug)]
pub struct Config {
    pub path: String,
    pub fields: Fields,
}

/// `s` with every tilde replaced by `home`, as the configured path is
/// expanded.
pub open spec fn tilde_replaced(s: Seq<char>, home: Seq<char>) -> Seq<char>
    decreases s.len(),
{
    if s.len() == 0 {
        Seq::empty()
    } else if s[0] == '~' {
        home + tilde_replaced(s.drop_first(), home)
    } else {
        seq![s[0]] + tilde_replaced(s.drop_first(), home)
    }
}

proof fn lemma_tilde_snoc(s: Seq<char>, c: char, home: Seq<char>)
    ensures
        tilde_replaced(s.push(c), home) == tilde_replaced(s, home) + (if c == '~' {
            home
        } else {
            seq![c]
        }),
    decreases s.len(),
{
    let tail: Seq<char> = if c == '~' {
        home
    } else {
        seq![c]
    };
    if s.len() == 0 {
        assert(s.push(c) =~= seq![c]);
        assert(s.push(c).drop_first() =~= Seq::<char>::empty());
        assert(tilde_replaced(Seq::<char>::empty(), home) == Seq::<char>::empty());
        assert(tilde_replaced(s.push(c), home) =~= tilde_replaced(s, home) + tail);
    } else {
        lemma_tilde_snoc(s.drop_first(), c, home);
        assert(s.push(c).drop_first() =~= s.drop_first().push(c));
        assert(s.push(c)[0] == s[0]);
        assert(tilde_replaced(s.push(c), home) =~= tilde_replaced(s, home) + tail);
    }
}

/// `path` with every tilde expanded to the home directory.
pub fn replace_tilde(path: &str, home: &str) -> (r: String)
    ensures
        r@ == tilde_replaced(path@, home@),
{
    let mut out = String::new();
    let n = path.unicode_len();
    let mut i: usize = 0;
    while i < n
        invariant
            n == path@.len(),
            i <= n,
            out@ == tilde_replaced(path@.take(i as int), home@),
        decreases n - i,
    {
        let c = path.get_char(i);
        if c == '~' {
            out.append(home);
        } else {
            push_char(&mut out, c);
        }
        proof {
            lemma_tilde_snoc(path@.take(i as int), c, home@);
            assert(path@.take(i as int + 1) =~= path@.take(i as int).push(path@[i as int]));
            assert(out@ =~= tilde_replaced(path@.take(i as int + 1), home@));
        }
        i += 1;
    }
    assert(path@.take(n as int) =~= path@);
    out
}

impl Config {
    /// A configuration from the raw values of the configuration file, with
    /// every tilde in the path expanded to the home directory.
    pub fn new(path: &str, fields: Fields, home: &str) -> (c: Config)
        ensures
            c.path@ == tilde_replaced(path@, home@),
            c.fields == fields,
    {
        Config { path: replace_tilde(path, home), fields }
    }
}

impl Default for Config {
    /// The configuration used when no file can be read: an empty base path,
    /// which the surrounding program resolves to the home directory, and
    /// empty labels.
    fn default() -> (c: Config)
        ensures
            c.path@.len() == 0,
            c.fields.input@.len() == 0,
            c.fields.login@.len() == 0,
            c.fields.service@.len() == 0,
    {
        Config { path: String::new(), fields: Fields::default() }
    }
}

} // verus!
