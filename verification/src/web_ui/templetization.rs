//! Text templates with `[[name]]` placeholders.

use vstd::prelude::*;
use crate::text::{append_chars, chars_of, replace_chars, replace_seq, same_chars, string_of};

verus! {

/// A template text and the placeholder names it expects values for.
pub struct Template<'a> {
    text: &'a str,
    expected_keys: Vec<&'a str>,
}

/// A name and the value given to it.
pub struct Pair {
    pub key: Seq<char>,
    pub value: Seq<char>,
}

/// The placeholder that stands for `key`: the key between double square
/// brackets.
pub open spec fn placeholder(key: Seq<char>) -> Seq<char> {
    "[["@ + key + "]]"@
}

/// The value that the first `upto` pairs give to `key`: that of the last of
/// them with this key.
pub open spec fn lookup(args: Seq<Pair>, key: Seq<char>, upto: int) -> Option<Seq<char>>
    decreases upto,
{
    if upto <= 0 {
        None
    } else if args[upto - 1].key == key {
        Some(args[upto - 1].value)
    } else {
        lookup(args, key, upto - 1)
    }
}

/// The value that `args` gives to `key`.
pub open spec fn value_of(args: Seq<Pair>, key: Seq<char>) -> Option<Seq<char>> {
    lookup(args, key, args.len() as int)
}

/// `text` after the placeholders of the first `upto` keys were replaced, one
/// key after the other, each by its value.
pub open spec fn rendered(text: Seq<char>, keys: Seq<Seq<char>>, args: Seq<Pair>, upto: int) -> Seq<char>
    decreases upto,
{
    if upto <= 0 {
        text
    } else {
        replace_seq(
            rendered(text, keys, args, upto - 1),
            placeholder(keys[upto - 1]),
            value_of(args, keys[upto - 1])->0,
        )
    }
}

/// The names of `keys`.
pub open spec fn names(keys: Seq<&str>) -> Seq<Seq<char>> {
    Seq::new(keys.len(), |i: int| keys[i]@)
}

/// The pairs of `args`.
pub open spec fn pairs(args: Seq<(&str, &str)>) -> Seq<Pair> {
    Seq::new(args.len(), |i: int| Pair { key: args[i].0@, value: args[i].1@ })
}

/// A key that one of the first `upto` pairs carries has a value.
proof fn lemma_lookup_found(args: Seq<Pair>, key: Seq<char>, i: int, upto: int)
    requires
        0 <= i < upto,
        args[i].key == key,
    ensures
        lookup(args, key, upto) is Some,
    decreases upto,
{
    if args[upto - 1].key != key {
        lemma_lookup_found(args, key, i, upto - 1);
    }
}

/// Finds the value of `key` in `args`.
fn find_value<'b>(args: &[(&'b str, &'b str)], key: &Vec<char>) -> (r: Option<&'b str>)
    ensures
        match r {
            Some(v) => value_of(pairs(args@), key@) == Some(v@),
            None => value_of(pairs(args@), key@) is None,
        },
{
    let mut i: usize = args.len();
    while i > 0
        invariant
            i <= args.len(),
            value_of(pairs(args@), key@) == lookup(pairs(args@), key@, i as int),
        decreases i,
    {
        let pair = &args[i - 1];
        if same_chars(&chars_of(pair.0), key) {
            return Some(pair.1);
        }
        i -= 1;
    }
    None
}

impl<'a> Template<'a> {
    /// The template text.
    pub closed spec fn text(&self) -> Seq<char> {
        self.text@
    }

    /// The expected placeholder names, in the order they are replaced.
    pub closed spec fn keys(&self) -> Seq<Seq<char>> {
        names(self.expected_keys@)
    }

    /// Whether `args` gives a value to every expected key.
    pub open spec fn covers(&self, args: Seq<Pair>) -> bool {
        forall|k: int| 0 <= k < self.keys().len() ==> value_of(args, #[trigger] self.keys()[k]) is Some
    }

    /// A template over `text` that expects a value for each of
    /// `expected_keys`.
    pub fn new(text: &'a str, expected_keys: &[&'a str]) -> (t: Self)
        ensures
            t.text() == text@,
            t.keys() == names(expected_keys@),
    {
        let mut keys: Vec<&'a str> = Vec::new();
        let mut i: usize = 0;
        while i < expected_keys.len()
            invariant
                i <= expected_keys.len(),
                keys@ == expected_keys@.take(i as int),
            decreases expected_keys.len() - i,
        {
            keys.push(expected_keys[i]);
            i += 1;
            assert(keys@ =~= expected_keys@.take(i as int));
        }
        assert(expected_keys@.take(expected_keys.len() as int) =~= expected_keys@);
        Self { text, expected_keys: keys }
    }

    /// Tests whether `args` gives a value to every expected key.
    pub fn accepts(&self, args: &[(&'a str, &'a str)]) -> (b: bool)
        ensures
            b == self.covers(pairs(args@)),
    {
        let mut k: usize = 0;
        while k < self.expected_keys.len()
            invariant
                k <= self.expected_keys.len(),
                forall|j: int| 0 <= j < k ==> value_of(pairs(args@), #[trigger] self.keys()[j]) is Some,
            decreases self.expected_keys.len() - k,
        {
            let key = chars_of(self.expected_keys[k]);
            assert(self.keys()[k as int] == key@);
            if find_value(args, &key).is_none() {
                return false;
            }
            k += 1;
        }
        true
    }

    /// The text with the placeholder of every expected key replaced by the
    /// key's value. Keys are handled in the order given at construction, so
    /// a placeholder that an earlier value brought in is replaced too.
    pub fn render(&self, args: &[(&'a str, &'a str)]) -> (out: String)
        requires
            self.covers(pairs(args@)),
        ensures
            out@ == rendered(self.text(), self.keys(), pairs(args@), self.keys().len() as int),
    {
        let mut result = chars_of(self.text);
        let open = chars_of("[[");
        let close = chars_of("]]");
        let mut k: usize = 0;
        while k < self.expected_keys.len()
            invariant
                k <= self.expected_keys.len(),
                self.covers(pairs(args@)),
                open@ == "[["@,
                close@ == "]]"@,
                result@ == rendered(self.text(), self.keys(), pairs(args@), k as int),
            decreases self.expected_keys.len() - k,
        {
            let key = chars_of(self.expected_keys[k]);
            assert(self.keys()[k as int] == key@);
            let mut mark: Vec<char> = Vec::new();
            append_chars(&mut mark, &open);
            append_chars(&mut mark, &key);
            append_chars(&mut mark, &close);
            assert(mark@ =~= placeholder(key@));
            assert(value_of(pairs(args@), self.keys()[k as int]) is Some);
            match find_value(args, &key) {
                Some(value) => {
                    result = replace_chars(&result, &mark, &chars_of(value));
                },
                None => {},
            }
            k += 1;
        }
        string_of(&result)
    }
}

/// Fills `text`: the placeholder of each key is replaced by the value that
/// `args` gives it, one key after the other. Each key has its pair at the
/// same place in `args`.
pub fn fill<'a>(text: &'a str, keys: &[&'a str], args: &[(&'a str, &'a str)]) -> (out: String)
    requires
        keys.len() == args.len(),
        forall|i: int| 0 <= i < keys.len() ==> (#[trigger] args[i]).0@ == keys[i]@,
    ensures
        out@ == rendered(text@, names(keys@), pairs(args@), keys.len() as int),
{
    let template = Template::new(text, keys);
    assert forall|k: int| 0 <= k < template.keys().len() implies value_of(
        pairs(args@),
        #[trigger] template.keys()[k],
    ) is Some by {
        assert(args[k].0@ == keys[k]@);
        lemma_lookup_found(pairs(args@), keys[k]@, k, args.len() as int);
    }
    template.render(args)
}

} // verus!
