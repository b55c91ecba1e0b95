//! Topic messages: a topic and a body joined by a single NUL character, the form in which
//! the hub carries broadcasts and clients send control frames.

use vstd::prelude::*;

verus! {

/// Separates a message's topic from its body.
pub const MESSAGE_TOPIC_DELIMITER: char = '\0';

/// `topic`, the delimiter, then `body`.
pub open spec fn joined(topic: Seq<char>, body: Seq<char>) -> Seq<char> {
    topic + seq![MESSAGE_TOPIC_DELIMITER] + body
}

/// `s` is `topic` and `body` joined at the first delimiter of `s`.
pub open spec fn is_split(s: Seq<char>, topic: Seq<char>, body: Seq<char>) -> bool {
    s == joined(topic, body) && !topic.contains(MESSAGE_TOPIC_DELIMITER)
}

/// The topic and body of `s`, split at its first delimiter; none without a delimiter.
pub open spec fn split_spec(s: Seq<char>) -> Option<(Seq<char>, Seq<char>)> {
    if exists|t: Seq<char>, b: Seq<char>| is_split(s, t, b) {
        let (t, b) = choose|t: Seq<char>, b: Seq<char>| is_split(s, t, b);
        Some((t, b))
    } else {
        None
    }
}

/// A text splits in at most one way.
pub proof fn lemma_split_unique(s: Seq<char>, t1: Seq<char>, b1: Seq<char>, t2: Seq<char>, b2: Seq<char>)
    requires
        is_split(s, t1, b1),
        is_split(s, t2, b2),
    ensures
        t1 == t2,
        b1 == b2,
{
    if t1.len() < t2.len() {
        assert(s[t1.len() as int] == MESSAGE_TOPIC_DELIMITER);
        assert(t2[t1.len() as int] == s[t1.len() as int]);
        assert(t2.contains(MESSAGE_TOPIC_DELIMITER));
    } else if t2.len() < t1.len() {
        assert(s[t2.len() as int] == MESSAGE_TOPIC_DELIMITER);
        assert(t1[t2.len() as int] == s[t2.len() as int]);
        assert(t1.contains(MESSAGE_TOPIC_DELIMITER));
    } else {
        assert(t1 =~= s.subrange(0, t1.len() as int));
        assert(t2 =~= s.subrange(0, t2.len() as int));
        assert(b1 =~= s.subrange(t1.len() as int + 1, s.len() as int));
        assert(b2 =~= s.subrange(t2.len() as int + 1, s.len() as int));
    }
}

/// The split of a text that splits as `(t, b)` is `(t, b)`.
pub proof fn lemma_split_spec_of(s: Seq<char>, t: Seq<char>, b: Seq<char>)
    requires
        is_split(s, t, b),
    ensures
        split_spec(s) == Some((t, b)),
{
    let (t2, b2) = choose|t2: Seq<char>, b2: Seq<char>| is_split(s, t2, b2);
    lemma_split_unique(s, t, b, t2, b2);
}

/// Joining a delimiter-free topic with a body and splitting the result gives back the
/// topic and the body.
pub proof fn lemma_join_then_split(topic: Seq<char>, body: Seq<char>)
    requires
        !topic.contains(MESSAGE_TOPIC_DELIMITER),
    ensures
        split_spec(joined(topic, body)) == Some((topic, body)),
{
    lemma_split_spec_of(joined(topic, body), topic, body);
}

/// The message `topic` NUL `body`.
pub fn format_topic_message(topic: &str, body: &str) -> (r: String)
    ensures
        r@ == joined(topic@, body@),
{
    let mut s = String::from_str(topic);
    s.append("\0");
    proof {
        reveal_strlit("\0");
    }
    s.append(body);
    s
}

/// Splits `text` at its first delimiter into topic and body.
pub fn split_topic_message(text: &str) -> (r: Option<(String, String)>)
    ensures
        match split_spec(text@) {
            Some((t, b)) => r matches Some((rt, rb)) && rt@ == t && rb@ == b,
            None => r is None,
        },
        r is Some <==> text@.contains(MESSAGE_TOPIC_DELIMITER),
{
    let n = text.unicode_len();
    let mut i: usize = 0;
    while i < n
        invariant
            n == text@.len(),
            i <= n,
            forall|j: int| 0 <= j < i ==> text@[j] != MESSAGE_TOPIC_DELIMITER,
        decreases n - i,
    {
        if text.get_char(i) == MESSAGE_TOPIC_DELIMITER {
            let topic = String::from_str(text.substring_char(0, i));
            let body = String::from_str(text.substring_char(i + 1, n));
            proof {
                assert(!topic@.contains(MESSAGE_TOPIC_DELIMITER));
                assert(text@ =~= joined(topic@, body@));
                lemma_split_spec_of(text@, topic@, body@);
            }
            return Some((topic, body));
        }
        i = i + 1;
    }
    proof {
        assert(!text@.contains(MESSAGE_TOPIC_DELIMITER));
        if exists|t: Seq<char>, b: Seq<char>| is_split(text@, t, b) {
            let (t, b) = choose|t: Seq<char>, b: Seq<char>| is_split(text@, t, b);
            assert(text@[t.len() as int] == MESSAGE_TOPIC_DELIMITER);
        }
    }
    None
}

} // verus!
