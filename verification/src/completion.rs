//! Completion of flags: which flags a line has used, and which spellings
//! are offered for the word being typed.

use vstd::prelude::*;
use vstd::string::StrSliceExecFns;
use vstd::string::StringExecFns;
use crate::command::{cluster, is_cluster_token, is_long_token, scan_token, Scan};
use crate::grammar::{
    flag_long, flag_short, long_flag, short_flag, verb_flags, Flag, FlagSet, Verb,
};
use crate::text::{starts_with, views};

verus! {

/// The text without its leading dashes.
pub open spec fn strip_dashes(s: Seq<char>) -> Seq<char>
    decreases s.len(),
{
    if s.len() > 0 && s[0] == '-' {
        strip_dashes(s.skip(1))
    } else {
        s
    }
}

/// A word that begins with a dash.
pub open spec fn is_flag_word(w: Seq<char>) -> bool {
    w.len() > 0 && w[0] == '-'
}

/// A word that begins with two dashes.
pub open spec fn is_long_word(w: Seq<char>) -> bool {
    w.len() > 1 && w[0] == '-' && w[1] == '-'
}

/// The flags after a cluster of one-letter spellings has been read: every
/// letter that spells a flag of the command adds that flag.
pub open spec fn letters_flags(v: Verb, letters: Seq<char>, used: FlagSet) -> FlagSet
    decreases letters.len(),
{
    if letters.len() == 0 {
        used
    } else {
        let before = letters_flags(v, letters.drop_last(), used);
        match short_flag(v, letters.last()) {
            Some(f) => before.with(f),
            None => before,
        }
    }
}

/// The flags after one word has been read: a word `--name` adds the flag
/// with that long spelling, a word `-abc` the flags that its letters spell,
/// and any other word nothing.
pub open spec fn word_flags(v: Verb, w: Seq<char>, used: FlagSet) -> FlagSet {
    if is_long_token(w) {
        match long_flag(v, w.skip(2)) {
            Some(f) => used.with(f),
            None => used,
        }
    } else if is_cluster_token(w) {
        letters_flags(v, w.skip(1), used)
    } else {
        used
    }
}

/// The flags of command `v` that the given words use.
pub open spec fn used_in(v: Verb, words: Seq<Seq<char>>) -> FlagSet
    decreases words.len(),
{
    if words.len() == 0 {
        FlagSet::none()
    } else {
        word_flags(v, words.last(), used_in(v, words.drop_last()))
    }
}

/// The words of a line between the command's name and the word being typed.
pub open spec fn earlier_words(words: Seq<Seq<char>>) -> Seq<Seq<char>> {
    if words.len() > 2 {
        words.subrange(1, words.len() - 1)
    } else {
        Seq::empty()
    }
}

/// What is offered for one flag. After a single dash with nothing typed yet:
/// the flag's letter, and its long spelling behind one more dash. After a
/// single dash and some letters: nothing. After two dashes: what is left of
/// the long spelling behind the typed `prefix`, where it starts with it.
pub open spec fn flag_offers(f: Flag, prefix: Seq<char>, is_short: bool) -> Seq<Seq<char>> {
    if is_short {
        if prefix.len() == 0 {
            (match flag_short(f) {
                Some(c) => seq![seq![c]],
                None => Seq::empty(),
            }) + (match flag_long(f) {
                Some(l) => seq!["-"@ + l],
                None => Seq::empty(),
            })
        } else {
            Seq::empty()
        }
    } else {
        match flag_long(f) {
            Some(l) => if prefix.is_prefix_of(l) {
                seq![l.skip(prefix.len() as int)]
            } else {
                Seq::empty()
            },
            None => Seq::empty(),
        }
    }
}

/// The flags of `flags` that are not in `used`, in order.
pub open spec fn unused(flags: Seq<Flag>, used: FlagSet) -> Seq<Flag>
    decreases flags.len(),
{
    if flags.len() == 0 {
        Seq::empty()
    } else if used.has(flags.last()) {
        unused(flags.drop_last(), used)
    } else {
        unused(flags.drop_last(), used).push(flags.last())
    }
}

/// What is offered for the given flags, one after the other.
pub open spec fn offers_of(flags: Seq<Flag>, prefix: Seq<char>, is_short: bool) -> Seq<Seq<char>>
    decreases flags.len(),
{
    if flags.len() == 0 {
        Seq::empty()
    } else {
        offers_of(flags.drop_last(), prefix, is_short) + flag_offers(flags.last(), prefix, is_short)
    }
}

/// The candidates for a flag being typed: what is offered for the flags of
/// the command that the line has not used yet.
pub open spec fn flag_candidates(v: Verb, used: FlagSet, prefix: Seq<char>, is_short: bool) -> Seq<
    Seq<char>,
> {
    offers_of(unused(verb_flags(v), used), prefix, is_short)
}

/// A flag that the line has used is not among the flags that candidates are
/// offered for.
pub proof fn law_used_flag_not_offered(flags: Seq<Flag>, used: FlagSet, f: Flag)
    requires
        used.has(f),
    ensures
        !unused(flags, used).contains(f),
    decreases flags.len(),
{
    if flags.len() > 0 {
        law_used_flag_not_offered(flags.drop_last(), used, f);
        let rest = unused(flags.drop_last(), used);
        if !used.has(flags.last()) {
            if rest.push(flags.last()).contains(f) {
                let k = choose|k: int|
                    0 <= k < rest.push(flags.last()).len() && rest.push(flags.last())[k] == f;
                assert(rest[k] == f);
                assert(rest.contains(f));
            }
        }
    }
}

/// Reading letters takes no flag away.
pub proof fn lemma_letters_keep(v: Verb, letters: Seq<char>, used: FlagSet, f: Flag)
    requires
        used.has(f),
    ensures
        letters_flags(v, letters, used).has(f),
    decreases letters.len(),
{
    if letters.len() > 0 {
        lemma_letters_keep(v, letters.drop_last(), used, f);
    }
}

/// A flag stays used, whatever else the line holds.
pub proof fn lemma_used_grows(v: Verb, words: Seq<Seq<char>>, i: int, f: Flag)
    requires
        0 <= i <= words.len(),
        used_in(v, words.take(i)).has(f),
    ensures
        used_in(v, words).has(f),
    decreases words.len() - i,
{
    if i < words.len() {
        assert(words.take(i + 1).drop_last() =~= words.take(i));
        let w = words.take(i + 1).last();
        if is_cluster_token(w) {
            lemma_letters_keep(v, w.skip(1), used_in(v, words.take(i)), f);
        }
        lemma_used_grows(v, words, i + 1, f);
    } else {
        assert(words.take(i) =~= words);
    }
}

/// A flag that any earlier word of the line uses is used: with
/// `law_used_flag_not_offered`, no candidate is offered for it.
pub proof fn law_flag_of_word_is_used(v: Verb, words: Seq<Seq<char>>, i: int, f: Flag)
    requires
        0 <= i < words.len(),
        word_flags(v, words[i], FlagSet::none()).has(f),
    ensures
        used_in(v, words).has(f),
{
    assert(words.take(i + 1).drop_last() =~= words.take(i));
    assert(words.take(i + 1).last() == words[i]);
    lemma_word_flags_add(v, words[i], used_in(v, words.take(i)), f);
    lemma_used_grows(v, words, i + 1, f);
}

/// What a word adds to no flags, it adds to any flags.
pub proof fn lemma_word_flags_add(v: Verb, w: Seq<char>, used: FlagSet, f: Flag)
    requires
        word_flags(v, w, FlagSet::none()).has(f),
    ensures
        word_flags(v, w, used).has(f),
{
    if is_cluster_token(w) && !is_long_token(w) {
        lemma_letters_add(v, w.skip(1), used, f);
    }
}

/// What letters add to no flags, they add to any flags.
pub proof fn lemma_letters_add(v: Verb, letters: Seq<char>, used: FlagSet, f: Flag)
    requires
        letters_flags(v, letters, FlagSet::none()).has(f),
    ensures
        letters_flags(v, letters, used).has(f),
    decreases letters.len(),
{
    if letters.len() > 0 {
        if letters_flags(v, letters.drop_last(), FlagSet::none()).has(f) {
            lemma_letters_add(v, letters.drop_last(), used, f);
        }
    }
}

/// Completion and parsing agree on the flags that a word uses: where the
/// parser takes a cluster of letters, it records the flags that completion
/// counts as used.
pub proof fn lemma_cluster_agrees(v: Verb, letters: Seq<char>, used: FlagSet)
    requires
        cluster(v, letters, used) is Some,
    ensures
        cluster(v, letters, used) == Some(letters_flags(v, letters, used)),
    decreases letters.len(),
{
    if letters.len() > 0 {
        lemma_cluster_agrees(v, letters.drop_last(), used);
    }
}

/// Completion and parsing agree on the flags that a word uses: where the
/// parser takes a word, the flags it has recorded after it are those that
/// completion counts as used.
pub proof fn law_parser_and_completion_agree(v: Verb, s: Scan, w: Seq<char>)
    requires
        scan_token(v, s, w) is Ok,
    ensures
        scan_token(v, s, w)->Ok_0.flags == word_flags(v, w, s.flags),
{
    if is_cluster_token(w) && !is_long_token(w) {
        lemma_cluster_agrees(v, w.skip(1), s.flags);
    }
}

/// The text without its leading dashes.
pub fn without_dashes(s: &str) -> (r: &str)
    ensures
        r@ == strip_dashes(s@),
{
    let n = s.unicode_len();
    let mut k: usize = 0;
    assert(s@.skip(0) =~= s@);
    while k < n && s.get_char(k) == '-'
        invariant
            n == s@.len(),
            k <= n,
            strip_dashes(s@) == strip_dashes(s@.skip(k as int)),
        decreases n - k,
    {
        assert(s@.skip(k as int).skip(1) =~= s@.skip(k + 1));
        k += 1;
    }
    assert(s@.skip(k as int) =~= s@.subrange(k as int, n as int));
    s.substring_char(k, n)
}

impl Flag {
    /// The flag's letter as a text of its own.
    pub fn short_spelling(self) -> (r: Option<&'static str>)
        ensures
            match r {
                Some(t) => flag_short(self) is Some && t@ == seq![flag_short(self).unwrap()],
                None => flag_short(self).is_none(),
            },
    {
        match self {
            Flag::ShowHidden => {
                proof {
                    reveal_strlit("s");
                }
                assert("s"@ =~= seq!['s']);
                Some("s")
            },
            Flag::Totp => {
                proof {
                    reveal_strlit("t");
                }
                assert("t"@ =~= seq!['t']);
                Some("t")
            },
        }
    }

    /// What is offered for the flag behind the typed `prefix`.
    pub fn offers(self, prefix: &str, is_short: bool) -> (out: Vec<String>)
        ensures
            views(out@) == flag_offers(self, prefix@, is_short),
    {
        let mut out: Vec<String> = Vec::new();
        if is_short {
            if prefix.unicode_len() == 0 {
                match self.short_spelling() {
                    Some(t) => {
                        out.push(t.to_owned());
                    },
                    None => {},
                }
                match self.long() {
                    Some(l) => {
                        let mut t = "-".to_owned();
                        t.append(l);
                        out.push(t);
                    },
                    None => {},
                }
            }
        } else {
            match self.long() {
                Some(l) => {
                    if starts_with(l, prefix) {
                        out.push(l.substring_char(prefix.unicode_len(), l.unicode_len()).to_owned());
                        assert(l@.skip(prefix@.len() as int) =~= l@.subrange(
                            prefix@.len() as int,
                            l@.len() as int,
                        ));
                    }
                },
                None => {},
            }
        }
        assert(views(out@) =~= flag_offers(self, prefix@, is_short));
        out
    }
}

impl Verb {
    /// The flags after the word `w` has been read.
    pub fn flags_of_word(self, w: &str, used: FlagSet) -> (r: FlagSet)
        ensures
            r == word_flags(self, w@, used),
    {
        let n = w.unicode_len();
        let dash = n > 1 && w.get_char(0) == '-';
        if dash && n > 2 && w.get_char(1) == '-' {
            return match self.long_flag(w.substring_char(2, n)) {
                Some(f) => used.insert(f),
                None => used,
            };
        }
        if !dash {
            return used;
        }
        let ghost letters = w@.skip(1);
        let mut r = used;
        let mut i: usize = 1;
        assert(letters.take(0) =~= Seq::<char>::empty());
        while i < n
            invariant
                n == w@.len(),
                letters == w@.skip(1),
                1 <= i <= n,
                r == letters_flags(self, letters.take(i - 1), used),
            decreases n - i,
        {
            proof {
                assert(letters.take(i as int).drop_last() =~= letters.take(i - 1));
                assert(letters.take(i as int).last() == w@[i as int]);
            }
            match self.short_flag(w.get_char(i)) {
                Some(f) => {
                    r = r.insert(f);
                },
                None => {},
            }
            i += 1;
        }
        assert(letters.take(i - 1) =~= letters);
        r
    }

    /// The flags of the command that the words of a line use before the
    /// word being typed.
    pub fn used_flags(self, words: &Vec<String>) -> (used: FlagSet)
        ensures
            used == used_in(self, earlier_words(views(words@))),
    {
        let mut used = FlagSet::empty();
        if words.len() <= 2 {
            return used;
        }
        let ghost mid = earlier_words(views(words@));
        let mut i: usize = 1;
        assert(mid.take(0) =~= Seq::<Seq<char>>::empty());
        while i < words.len() - 1
            invariant
                words@.len() > 2,
                1 <= i <= words@.len() - 1,
                mid == earlier_words(views(words@)),
                used == used_in(self, mid.take(i - 1)),
            decreases words@.len() - i,
        {
            proof {
                assert(mid.take(i as int).drop_last() =~= mid.take(i - 1));
                assert(mid.take(i as int).last() == words@[i as int]@);
            }
            used = self.flags_of_word(words[i].as_str(), used);
            i += 1;
        }
        assert(mid.take(i - 1) =~= mid);
        used
    }

    /// The candidates for a flag of the command being typed, where `used`
    /// holds the flags that the line has already.
    pub fn flag_candidates(self, used: FlagSet, prefix: &str, is_short: bool) -> (out: Vec<String>)
        ensures
            views(out@) == flag_candidates(self, used, prefix@, is_short),
    {
        let flags = self.flags();
        let mut out: Vec<String> = Vec::new();
        let mut i: usize = 0;
        assert(flags@.take(0) =~= Seq::<Flag>::empty());
        assert(views(out@) =~= Seq::<Seq<char>>::empty());
        while i < flags.len()
            invariant
                flags@ == verb_flags(self),
                i <= flags@.len(),
                views(out@) == offers_of(unused(flags@.take(i as int), used), prefix@, is_short),
            decreases flags@.len() - i,
        {
            proof {
                assert(flags@.take(i + 1).drop_last() =~= flags@.take(i as int));
                assert(flags@.take(i + 1).last() == flags@[i as int]);
            }
            if !used.contains(flags[i]) {
                let ghost rest = unused(flags@.take(i as int), used);
                let ghost before = views(out@);
                let mut more = flags[i].offers(prefix, is_short);
                let ghost added = views(more@);
                out.append(&mut more);
                proof {
                    assert(views(out@) =~= before + added);
                    assert(rest.push(flags@[i as int]).drop_last() =~= rest);
                }
            }
            i += 1;
        }
        assert(flags@.take(i as int) =~= flags@);
        out
    }
}

} // verus!
