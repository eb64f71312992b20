//! Where copies of the status file are put, if anywhere.
use crate::text;
use vstd::prelude::*;
use vstd::string::*;

verus! {

/// The bucket and the prefix of the keys in it.
#[derive(Clone, Debug)]
pub struct S3Mirror {
    pub bucket: String,
    /// Without a slash at its end.
    pub key_prefix: String,
}

/// Text without the slashes at its end.
pub open spec fn without_slashes(s: Seq<char>) -> Seq<char>
    decreases s.len(),
{
    if s.len() > 0 && s.last() == '/' {
        without_slashes(s.drop_last())
    } else {
        s
    }
}

/// The bucket that a setting names.
pub open spec fn bucket_named(setting: Option<String>) -> Option<Seq<char>> {
    if setting is Some && text::trimmed(setting->0@).len() > 0 {
        Some(text::trimmed(setting->0@))
    } else {
        None
    }
}

/// The prefix that a setting names.
pub open spec fn prefix_named(setting: Option<String>) -> Option<Seq<char>> {
    if setting is Some && without_slashes(text::trimmed(setting->0@)).len() > 0 {
        Some(without_slashes(text::trimmed(setting->0@)))
    } else {
        None
    }
}

fn strip_slashes(s: &str) -> (t: &str)
    ensures
        t@ == without_slashes(s@),
{
    let n: usize = s.unicode_len();
    let mut to: usize = n;
    assert(s@.subrange(0, n as int) =~= s@);
    while to > 0 && s.get_char(to - 1) == '/'
        invariant
            n == s@.len(),
            to <= n,
            without_slashes(s@.subrange(0, to as int)) == without_slashes(s@),
        decreases to,
    {
        assert(s@.subrange(0, to as int).drop_last() =~= s@.subrange(0, to - 1));
        to = to - 1;
    }
    s.substring_char(0, to)
}

impl S3Mirror {
    /// The mirror that the two settings ask for; none unless both say something.
    pub fn from_settings(bucket: &Option<String>, prefix: &Option<String>) -> (m: Option<S3Mirror>)
        ensures
            m is Some == (bucket_named(*bucket) is Some && prefix_named(*prefix) is Some),
            m matches Some(x) ==> Some(x.bucket@) == bucket_named(*bucket) && Some(x.key_prefix@)
                == prefix_named(*prefix),
    {
        let b = match bucket {
            Some(v) => text::trim(v.as_str()),
            None => {
                return None;
            },
        };
        let p = match prefix {
            Some(v) => strip_slashes(text::trim(v.as_str())),
            None => {
                return None;
            },
        };
        if b.is_empty() || p.is_empty() {
            return None;
        }
        Some(S3Mirror { bucket: b.to_owned(), key_prefix: p.to_owned() })
    }

    /// The key of a file.
    pub fn key_of(&self, file_name: &str) -> (k: String)
        ensures
            k@ == self.key_prefix@ + seq!['/'] + file_name@,
    {
        proof {
            reveal_strlit("/");
        }
        assert("/"@ =~= seq!['/']);
        self.key_prefix.clone().concat("/").concat(file_name)
    }
}

/// Slashes at the end of a prefix make no difference.
pub proof fn law_trailing_slash_is_dropped(s: Seq<char>)
    ensures
        without_slashes(s.push('/')) == without_slashes(s),
        without_slashes(s).len() > 0 ==> without_slashes(s).last() != '/',
    decreases s.len(),
{
    assert(s.push('/').drop_last() =~= s);
    if s.len() > 0 && s.last() == '/' {
        law_trailing_slash_is_dropped(s.drop_last());
    }
}

/// Nothing but slashes is taken from the end of a text.
pub proof fn law_only_slashes_are_dropped(s: Seq<char>)
    ensures
        without_slashes(s).len() <= s.len(),
        without_slashes(s) == s.take(without_slashes(s).len() as int),
        forall|i: int| without_slashes(s).len() <= i < s.len() ==> #[trigger] s[i] == '/',
    decreases s.len(),
{
    if s.len() > 0 && s.last() == '/' {
        law_only_slashes_are_dropped(s.drop_last());
        let n = without_slashes(s).len() as int;
        assert(s.drop_last().take(n) =~= s.take(n));
        assert forall|i: int| n <= i < s.len() implies #[trigger] s[i] == '/' by {
            if i < s.len() - 1 {
                assert(s.drop_last()[i] == s[i]);
            }
        }
    } else {
        assert(s.take(s.len() as int) =~= s);
    }
}

/// A bucket and a prefix are named by what is left of their settings: something, and for the
/// prefix nothing that ends in a slash.
pub proof fn law_mirrors_are_named(setting: Option<String>)
    ensures
        bucket_named(setting) is Some <==> setting is Some && !text::blank(setting->0@),
        bucket_named(setting) matches Some(b) ==> b.len() > 0 && !text::white_space(b[0])
            && !text::white_space(b.last()),
        prefix_named(setting) matches Some(p) ==> p.len() > 0 && p.last() != '/'
            && !text::white_space(p[0]),
        prefix_named(setting) is Some ==> bucket_named(setting) is Some,
{
    if let Some(v) = setting {
        text::lemma_trimmed_blank(v@);
        let _ = text::law_trimming_takes_only_blanks(v@);
        law_trailing_slash_is_dropped(text::trimmed(v@));
        law_only_slashes_are_dropped(text::trimmed(v@));
    }
}

} // verus!
