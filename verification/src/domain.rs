//! The people a newsletter goes to: their names and addresses, and the rules
//! that both must meet.

use vstd::prelude::*;
use vstd::string::*;

verus! {

/// How far a subscription has got.
#[derive(Debug, Clone, Copy, PartialEq, Eq, Structural)]
pub enum SubscriptionStatus {
    /// The subscriber has not followed the confirmation link yet.
    PendingConfirmation,
    /// The subscriber has confirmed the address.
    Confirmed,
}

/// One row of the subscriber source: an address and its status.
#[derive(Debug, Clone, PartialEq, Eq)]
pub struct Subscriber {
    pub email: String,
    pub status: SubscriptionStatus,
}

/// The addresses of the confirmed subscribers among `subscribers`.
pub open spec fn confirmed_addresses(subscribers: Seq<Subscriber>) -> Set<Seq<char>> {
    Set::new(
        |address: Seq<char>|
            exists|i: int|
                0 <= i < subscribers.len() && (#[trigger] subscribers[i]).status == SubscriptionStatus::Confirmed
                    && subscribers[i].email@ == address,
    )
}

} // verus!

verus! {

/// Taking one more subscriber into account adds their address if they are
/// confirmed, and nothing otherwise.
pub proof fn lemma_confirmed_addresses_step(subscribers: Seq<Subscriber>, i: int)
    requires
        0 <= i < subscribers.len(),
    ensures
        confirmed_addresses(subscribers.subrange(0, i + 1)) == if subscribers[i].status
            == SubscriptionStatus::Confirmed {
            confirmed_addresses(subscribers.subrange(0, i)).insert(subscribers[i].email@)
        } else {
            confirmed_addresses(subscribers.subrange(0, i))
        },
{
    let shorter = subscribers.subrange(0, i);
    let longer = subscribers.subrange(0, i + 1);
    let grown = if subscribers[i].status == SubscriptionStatus::Confirmed {
        confirmed_addresses(shorter).insert(subscribers[i].email@)
    } else {
        confirmed_addresses(shorter)
    };
    assert forall|a: Seq<char>| #[trigger] confirmed_addresses(longer).contains(a) implies grown.contains(a) by {
        let j = choose|j: int|
            0 <= j < longer.len() && (#[trigger] longer[j]).status == SubscriptionStatus::Confirmed
                && longer[j].email@ == a;
        if j < i {
            assert(shorter[j] == longer[j]);
        } else {
            assert(longer[j] == subscribers[i]);
        }
    }
    assert forall|a: Seq<char>| #[trigger] grown.contains(a) implies confirmed_addresses(longer).contains(a) by {
        if confirmed_addresses(shorter).contains(a) {
            let j = choose|j: int|
                0 <= j < shorter.len() && (#[trigger] shorter[j]).status == SubscriptionStatus::Confirmed
                    && shorter[j].email@ == a;
            assert(longer[j] == shorter[j]);
        } else {
            assert(longer[i] == subscribers[i]);
        }
    }
    assert(confirmed_addresses(longer) =~= grown);
}

} // verus!

verus! {

/// A character that may stand in an address: visible ASCII, from `!` to `~`.
pub open spec fn is_visible_ascii(c: char) -> bool {
    0x21 <= c as u32 <= 0x7e
}

/// The rule for an address: visible ASCII characters only, and exactly one
/// `@`, with at least one character before it and one after it.
pub open spec fn is_valid_email(s: Seq<char>) -> bool {
    &&& forall|i: int| 0 <= i < s.len() ==> is_visible_ascii(#[trigger] s[i])
    &&& exists|at: int|
        #![trigger s[at]]
        0 < at < s.len() - 1 && s[at] == '@' && forall|i: int|
            #![trigger s[i]]
            0 <= i < s.len() && s[i] == '@' ==> i == at
}

/// Whether `s` meets the rule for an address.
pub fn check_email(s: &str) -> (ok: bool)
    ensures
        ok == is_valid_email(s@),
{
    let n = s.unicode_len();
    let mut i: usize = 0;
    let mut seen = false;
    let mut at: usize = 0;
    while i < n
        invariant
            i <= n,
            n == s@.len(),
            forall|j: int| 0 <= j < i ==> is_visible_ascii(#[trigger] s@[j]),
            !seen ==> forall|j: int| #![trigger s@[j]] 0 <= j < i ==> s@[j] != '@',
            seen ==> at < i && s@[at as int] == '@' && forall|j: int|
                #![trigger s@[j]]
                0 <= j < i && s@[j] == '@' ==> j == at,
        decreases n - i,
    {
        let c = s.get_char(i);
        let code = c as u32;
        if code < 0x21 || code > 0x7e {
            assert(!is_visible_ascii(s@[i as int]));
            return false;
        }
        if c == '@' {
            if seen {
                assert(s@[at as int] == '@' && s@[i as int] == '@');
                return false;
            }
            seen = true;
            at = i;
        }
        i += 1;
    }
    if !seen {
        return false;
    }
    if 0 < at && at < n - 1 {
        assert(0 < at < s@.len() - 1 && s@[at as int] == '@');
        true
    } else {
        assert(s@[at as int] == '@');
        false
    }
}

/// The message for a string that is no address.
pub open spec fn email_error(s: Seq<char>) -> Seq<char> {
    s + " is not a valid subscriber email."@
}

/// A subscriber's address. It always meets the rule for an address.
#[derive(Debug, PartialEq, Eq)]
pub struct SubscriberEmail {
    text: String,
}

impl View for SubscriberEmail {
    type V = Seq<char>;

    closed spec fn view(&self) -> Seq<char> {
        self.text@
    }
}

impl SubscriberEmail {
    #[verifier::type_invariant]
    closed spec fn well_formed(&self) -> bool {
        is_valid_email(self.text@)
    }

    /// Accepts `s` as an address, or says that it is none.
    pub fn parse(s: String) -> (r: Result<SubscriberEmail, String>)
        ensures
            match r {
                Ok(email) => is_valid_email(s@) && email@ == s@,
                Err(message) => !is_valid_email(s@) && message@ == email_error(s@),
            },
    {
        if check_email(s.as_str()) {
            Ok(SubscriberEmail { text: s })
        } else {
            Err(s.concat(" is not a valid subscriber email."))
        }
    }

    /// The address. It meets the rule for an address.
    pub fn as_str(&self) -> (s: &str)
        ensures
            s@ == self@,
            is_valid_email(self@),
    {
        proof {
            use_type_invariant(self);
        }
        self.text.as_str()
    }
}

impl Clone for SubscriberEmail {
    fn clone(&self) -> (copy: SubscriberEmail)
        ensures
            copy@ == self@,
    {
        proof {
            use_type_invariant(self);
        }
        SubscriberEmail { text: self.text.clone() }
    }
}

/// The longest name, in grapheme clusters.
pub const MAX_NAME_GRAPHEMES: usize = 256;

/// A white-space character, as Unicode lists them.
pub open spec fn is_whitespace(c: char) -> bool {
    let code = c as u32;
    ||| 0x09 <= code <= 0x0d
    ||| code == 0x20
    ||| code == 0x85
    ||| code == 0xa0
    ||| code == 0x1680
    ||| 0x2000 <= code <= 0x200a
    ||| code == 0x2028
    ||| code == 0x2029
    ||| code == 0x202f
    ||| code == 0x205f
    ||| code == 0x3000
}

/// A character that no name may hold.
pub open spec fn is_forbidden(c: char) -> bool {
    c == '(' || c == ')' || c == '/' || c == '"' || c == '<' || c == '>' || c == '{' || c == '}' || c == '\\'
}

/// The string is empty or all white space.
pub open spec fn is_blank(s: Seq<char>) -> bool {
    forall|i: int| 0 <= i < s.len() ==> is_whitespace(#[trigger] s[i])
}

/// The string holds a character that no name may hold.
pub open spec fn has_forbidden(s: Seq<char>) -> bool {
    exists|i: int| 0 <= i < s.len() && is_forbidden(#[trigger] s[i])
}

/// The rule for a name of `graphemes` grapheme clusters: not blank, at most
/// 256 clusters, and no forbidden character.
pub open spec fn is_valid_name(s: Seq<char>, graphemes: nat) -> bool {
    !is_blank(s) && graphemes <= MAX_NAME_GRAPHEMES && !has_forbidden(s)
}

/// The number of extended grapheme clusters of a string, as
/// `unicode_segmentation` counts them.
pub uninterp spec fn grapheme_count(s: Seq<char>) -> nat;

/// `UnicodeSegmentation::graphemes` with `is_extended` set, counted: the
/// number of extended grapheme clusters of `s`.
#[verifier::external_body]
fn count_graphemes(s: &str) -> (n: usize)
    ensures
        n == grapheme_count(s@),
{
    unicode_segmentation::UnicodeSegmentation::graphemes(s, true).count()
}

/// Whether `c` is white space.
pub fn char_is_whitespace(c: char) -> (r: bool)
    ensures
        r == is_whitespace(c),
{
    let code = c as u32;
    (0x09 <= code && code <= 0x0d) || code == 0x20 || code == 0x85 || code == 0xa0 || code == 0x1680 || (0x2000
        <= code && code <= 0x200a) || code == 0x2028 || code == 0x2029 || code == 0x202f || code == 0x205f || code
        == 0x3000
}

/// Whether `c` is a character that no name may hold.
pub fn char_is_forbidden(c: char) -> (r: bool)
    ensures
        r == is_forbidden(c),
{
    c == '(' || c == ')' || c == '/' || c == '"' || c == '<' || c == '>' || c == '{' || c == '}' || c == '\\'
}

/// Whether `s`, a string of `graphemes` grapheme clusters, meets the rule
/// for a name.
pub fn name_is_acceptable(s: &str, graphemes: usize) -> (ok: bool)
    ensures
        ok == is_valid_name(s@, graphemes as nat),
{
    let n = s.unicode_len();
    let mut i: usize = 0;
    let mut blank = true;
    let mut forbidden = false;
    while i < n
        invariant
            i <= n,
            n == s@.len(),
            blank == is_blank(s@.subrange(0, i as int)),
            forbidden == has_forbidden(s@.subrange(0, i as int)),
        decreases n - i,
    {
        let c = s.get_char(i);
        let ghost shorter = s@.subrange(0, i as int);
        let ghost longer = s@.subrange(0, i + 1);
        proof {
            assert(longer[i as int] == c);
            assert forall|j: int| 0 <= j < i implies #[trigger] longer[j] == shorter[j] by {}
            if is_blank(longer) {
                assert forall|j: int| 0 <= j < shorter.len() implies is_whitespace(#[trigger] shorter[j]) by {
                    assert(is_whitespace(longer[j]));
                }
            }
            if has_forbidden(shorter) {
                let j = choose|j: int| 0 <= j < shorter.len() && is_forbidden(#[trigger] shorter[j]);
                assert(is_forbidden(longer[j]));
            }
            if has_forbidden(longer) && !is_forbidden(c) {
                let j = choose|j: int| 0 <= j < longer.len() && is_forbidden(#[trigger] longer[j]);
                assert(j < i);
                assert(is_forbidden(shorter[j]));
            }
        }
        if !char_is_whitespace(c) {
            blank = false;
        }
        if char_is_forbidden(c) {
            forbidden = true;
        }
        i += 1;
    }
    assert(s@.subrange(0, n as int) =~= s@);
    !blank && graphemes <= MAX_NAME_GRAPHEMES && !forbidden
}

/// The message for a string that is no name.
pub open spec fn name_error(s: Seq<char>) -> Seq<char> {
    s + " is not a valid subscriber name."@
}

/// A subscriber's name. It always meets the rule for a name.
#[derive(Debug, PartialEq, Eq)]
pub struct SubscriberUsername {
    text: String,
}

impl View for SubscriberUsername {
    type V = Seq<char>;

    closed spec fn view(&self) -> Seq<char> {
        self.text@
    }
}

impl SubscriberUsername {
    #[verifier::type_invariant]
    closed spec fn well_formed(&self) -> bool {
        is_valid_name(self.text@, grapheme_count(self.text@))
    }

    /// Accepts `s` as a name, or says that it is none.
    pub fn parse(s: String) -> (r: Result<SubscriberUsername, String>)
        ensures
            match r {
                Ok(name) => is_valid_name(s@, grapheme_count(s@)) && name@ == s@,
                Err(message) => !is_valid_name(s@, grapheme_count(s@)) && message@ == name_error(s@),
            },
    {
        let graphemes = count_graphemes(s.as_str());
        if name_is_acceptable(s.as_str(), graphemes) {
            Ok(SubscriberUsername { text: s })
        } else {
            Err(s.concat(" is not a valid subscriber name."))
        }
    }

    /// The name. It meets the rule for a name.
    pub fn as_str(&self) -> (s: &str)
        ensures
            s@ == self@,
            is_valid_name(self@, grapheme_count(self@)),
    {
        proof {
            use_type_invariant(self);
        }
        self.text.as_str()
    }
}

/// Someone who asks to subscribe: a valid address and a valid name.
#[derive(Debug, PartialEq, Eq)]
pub struct NewSubscriber {
    pub email: SubscriberEmail,
    pub username: SubscriberUsername,
}

impl NewSubscriber {
    /// Checks the address, then the name. The first that fails gives the
    /// message.
    pub fn parse(email: String, username: String) -> (r: Result<NewSubscriber, String>)
        ensures
            match r {
                Ok(subscriber) => is_valid_email(email@) && is_valid_name(username@, grapheme_count(username@))
                    && subscriber.email@ == email@ && subscriber.username@ == username@,
                Err(message) => if !is_valid_email(email@) {
                    message@ == email_error(email@)
                } else {
                    !is_valid_name(username@, grapheme_count(username@)) && message@ == name_error(username@)
                },
            },
    {
        let email = match SubscriberEmail::parse(email) {
            Ok(email) => email,
            Err(message) => {
                return Err(message);
            },
        };
        let username = match SubscriberUsername::parse(username) {
            Ok(username) => username,
            Err(message) => {
                return Err(message);
            },
        };
        Ok(NewSubscriber { email, username })
    }
}

} // verus!
