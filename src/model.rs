//! Document identities and content representations.
use vstd::prelude::*;

verus! {

/// The mathematical value of a document identity.
pub enum DocumentId {
    Published(u32),
    Draft(Seq<char>),
}

/// A document identity: a published RFC by number, or a draft by name.
#[derive(Debug, Clone, Hash)]
pub enum DocumentType {
    Rfc(u32),
    Draft(String),
}

/// The representation of a document's content.
#[derive(Debug, Clone, Copy, PartialEq, Eq, Hash, Structural)]
pub enum Format {
    Text,
    Html,
}

impl View for DocumentType {
    type V = DocumentId;

    open spec fn view(&self) -> DocumentId {
        match self {
            DocumentType::Rfc(n) => DocumentId::Published(*n),
            DocumentType::Draft(s) => DocumentId::Draft(s@),
        }
    }
}

impl PartialEq for DocumentType {
    fn eq(&self, other: &DocumentType) -> (r: bool) {
        match (self, other) {
            (DocumentType::Rfc(a), DocumentType::Rfc(b)) => *a == *b,
            (DocumentType::Draft(a), DocumentType::Draft(b)) => String::eq(a, b),
            _ => false,
        }
    }
}

impl vstd::std_specs::cmp::PartialEqSpecImpl for DocumentType {
    open spec fn obeys_eq_spec() -> bool {
        true
    }

    open spec fn eq_spec(&self, other: &DocumentType) -> bool {
        self@ == other@
    }
}

impl Eq for DocumentType {

}

pub open spec fn is_digit(c: char) -> bool {
    '0' <= c && c <= '9'
}

pub open spec fn digit_value(c: char) -> nat {
    (c as nat - '0' as nat) as nat
}

pub open spec fn digit_char(d: nat) -> char {
    (d + '0' as nat) as char
}

/// The decimal notation of `n`, without leading zeros.
pub open spec fn decimal(n: nat) -> Seq<char>
    decreases n,
{
    if n < 10 {
        seq![digit_char(n)]
    } else {
        decimal(n / 10).push(digit_char(n % 10))
    }
}

pub open spec fn all_digits(s: Seq<char>) -> bool {
    forall|i: int| 0 <= i < s.len() ==> is_digit(#[trigger] s[i])
}

/// The number that a sequence of decimal digits denotes.
pub open spec fn digits_value(s: Seq<char>) -> nat
    decreases s.len(),
{
    if s.len() == 0 {
        0
    } else {
        digits_value(s.drop_last()) * 10 + digit_value(s.last())
    }
}

pub open spec fn rfc_prefix() -> Seq<char> {
    seq!['r', 'f', 'c']
}

pub open spec fn draft_prefix() -> Seq<char> {
    seq!['d', 'r', 'a', 'f', 't', '-']
}

/// The canonical name: `rfc<n>` for a published document, the name itself for a draft.
pub open spec fn canonical_name(d: DocumentId) -> Seq<char> {
    match d {
        DocumentId::Published(n) => rfc_prefix() + decimal(n as nat),
        DocumentId::Draft(s) => s,
    }
}

/// The file-name extension of a representation.
pub open spec fn extension_of(f: Format) -> Seq<char> {
    match f {
        Format::Text => seq!['t', 'x', 't'],
        Format::Html => seq!['h', 't', 'm', 'l'],
    }
}

/// The identity that a textual name denotes: `rfc` followed by decimal digits
/// whose value fits in 32 bits, or any name starting with `draft-`.
pub open spec fn parse_name(s: Seq<char>) -> Option<DocumentId> {
    if s.len() > 3 && s.take(3) == rfc_prefix() && all_digits(s.skip(3)) && digits_value(
        s.skip(3),
    ) <= u32::MAX {
        Some(DocumentId::Published(digits_value(s.skip(3)) as u32))
    } else if s.len() >= 6 && s.take(6) == draft_prefix() {
        Some(DocumentId::Draft(s))
    } else {
        None
    }
}

/// A draft identity whose name reads back as that same draft.
pub open spec fn well_formed(d: DocumentId) -> bool {
    match d {
        DocumentId::Published(_) => true,
        DocumentId::Draft(s) => s.len() >= 6 && s.take(6) == draft_prefix(),
    }
}

fn digit_str(d: u32) -> (r: &'static str)
    requires
        d < 10,
    ensures
        r@ == seq![digit_char(d as nat)],
{
    proof {
        reveal_strlit("0");
        reveal_strlit("1");
        reveal_strlit("2");
        reveal_strlit("3");
        reveal_strlit("4");
        reveal_strlit("5");
        reveal_strlit("6");
        reveal_strlit("7");
        reveal_strlit("8");
        reveal_strlit("9");
    }
    match d {
        0 => "0",
        1 => "1",
        2 => "2",
        3 => "3",
        4 => "4",
        5 => "5",
        6 => "6",
        7 => "7",
        8 => "8",
        _ => "9",
    }
}

/// Appends the decimal notation of `n` to `out`.
pub fn push_decimal(out: &mut String, n: u32)
    ensures
        final(out)@ == old(out)@ + decimal(n as nat),
    decreases n,
{
    if n >= 10 {
        push_decimal(out, n / 10);
        out.append(digit_str(n % 10));
        assert(decimal(n as nat) == decimal((n / 10) as nat).push(digit_char((n % 10) as nat)));
    } else {
        out.append(digit_str(n));
    }
}

impl Format {
    /// The file-name extension used for cached content in this representation.
    pub fn extension(&self) -> (r: &'static str)
        ensures
            r@ == extension_of(*self),
    {
        proof {
            reveal_strlit("txt");
            reveal_strlit("html");
        }
        match self {
            Format::Text => "txt",
            Format::Html => "html",
        }
    }
}

/// Digits read back give the number they were written from.
pub proof fn lemma_decimal_digits(n: nat)
    ensures
        all_digits(decimal(n)),
        digits_value(decimal(n)) == n,
        decimal(n).len() >= 1,
    decreases n,
{
    if n < 10 {
        assert(decimal(n).drop_last() =~= Seq::<char>::empty());
        assert(digit_value(digit_char(n)) == n);
        assert(decimal(n).last() == digit_char(n));
        assert(digits_value(decimal(n)) == digits_value(decimal(n).drop_last()) * 10 + digit_value(decimal(n).last()));
    } else {
        lemma_decimal_digits(n / 10);
        let t = decimal(n);
        assert(t.drop_last() == decimal(n / 10));
        assert(t.last() == digit_char(n % 10));
        assert(digit_value(digit_char(n % 10)) == n % 10);
        assert(digits_value(t) == digits_value(decimal(n / 10)) * 10 + digit_value(t.last()));
        assert(n == (n / 10) * 10 + n % 10);
        assert forall|i: int| 0 <= i < t.len() implies is_digit(#[trigger] t[i]) by {
            if i < t.len() - 1 {
                assert(t[i] == decimal(n / 10)[i]);
            }
        }
    }
}

/// Extending a run of digits never lowers its value.
pub proof fn lemma_digits_value_prefix(t: Seq<char>, k: int)
    requires
        0 <= k <= t.len(),
    ensures
        digits_value(t.take(k)) <= digits_value(t),
    decreases t.len() - k,
{
    if k < t.len() {
        lemma_digits_value_prefix(t, k + 1);
        assert(t.take(k + 1).drop_last() == t.take(k));
    } else {
        assert(t.take(k) == t);
    }
}

/// Parsing the canonical name of a well-formed identity gives that identity back.
pub proof fn lemma_parse_canonical_name(d: DocumentId)
    requires
        well_formed(d),
    ensures
        parse_name(canonical_name(d)) == Some(d),
{
    match d {
        DocumentId::Published(n) => {
            let s = canonical_name(d);
            lemma_decimal_digits(n as nat);
            assert(s.take(3) == rfc_prefix());
            assert(s.skip(3) == decimal(n as nat));
        },
        DocumentId::Draft(s) => {
            assert(s.take(6)[0] == 'd');
            if s.len() > 3 && s.take(3) == rfc_prefix() {
                assert(s.take(3)[0] == s[0]);
            }
        },
    }
}

impl DocumentType {
    /// A copy of this identity.
    pub fn copied(&self) -> (r: DocumentType)
        ensures
            r@ == self@,
    {
        match self {
            DocumentType::Rfc(n) => DocumentType::Rfc(*n),
            DocumentType::Draft(s) => DocumentType::Draft(s.clone()),
        }
    }

    /// The canonical name: `rfc<n>` for a published document, the name itself for a draft.
    pub fn name(&self) -> (r: String)
        ensures
            r@ == canonical_name(self@),
    {
        match self {
            DocumentType::Rfc(n) => {
                let mut out = String::from_str("rfc");
                proof {
                    reveal_strlit("rfc");
                }
                push_decimal(&mut out, *n);
                out
            },
            DocumentType::Draft(s) => s.clone(),
        }
    }

    /// Reads an identity from its textual name: `rfc` and a number, or a
    /// name starting with `draft-`.
    pub fn parse(s: &str) -> (r: Option<DocumentType>)
        ensures
            match r {
                Some(d) => parse_name(s@) == Some(d@),
                None => parse_name(s@) is None,
            },
    {
        let len = s.unicode_len();
        if len > 3 && s.get_char(0) == 'r' && s.get_char(1) == 'f' && s.get_char(2) == 'c' {
            let ghost t = s@.skip(3);
            assert(s@.take(3) == rfc_prefix());
            proof {
                if s@.len() >= 6 && s@.take(6) == draft_prefix() {
                    assert(s@.take(6)[0] == s@[0]);
                }
            }
            let mut i: usize = 3;
            let mut acc: u64 = 0;
            while i < len
                invariant
                    3 <= i <= len,
                    len == s@.len(),
                    t == s@.skip(3),
                    s@.len() > 3 && s@.take(3) == rfc_prefix(),
                    !(s@.len() >= 6 && s@.take(6) == draft_prefix()),
                    all_digits(t.take(i - 3)),
                    acc == digits_value(t.take(i - 3)),
                    acc <= u32::MAX,
                decreases len - i,
            {
                let c = s.get_char(i);
                assert(t[i - 3] == c);
                if !('0' <= c && c <= '9') {
                    assert(!is_digit(t[i - 3]));
                    assert(!all_digits(t));
                    return None;
                }
                let d: u64 = (c as u64) - ('0' as u64);
                acc = acc * 10 + d;
                assert(t.take(i - 2).drop_last() == t.take(i - 3));
                assert(t.take(i - 2).last() == c);
                assert forall|j: int| 0 <= j < t.take(i - 2).len() implies is_digit(
                    #[trigger] t.take(i - 2)[j],
                ) by {
                    if j < i - 3 {
                        assert(t.take(i - 2)[j] == t.take(i - 3)[j]);
                    }
                }
                i = i + 1;
                if acc > u32::MAX as u64 {
                    proof {
                        lemma_digits_value_prefix(t, i - 3);
                    }
                    return None;
                }
            }
            assert(t.take(i - 3) == t);
            Some(DocumentType::Rfc(acc as u32))
        } else if len >= 6 && s.get_char(0) == 'd' && s.get_char(1) == 'r' && s.get_char(2) == 'a'
            && s.get_char(3) == 'f' && s.get_char(4) == 't' && s.get_char(5) == '-' {
            assert(s@.take(6) == draft_prefix());
            proof {
                if len > 3 && s@.take(3) == rfc_prefix() {
                    assert(s@.take(3)[0] == s@[0]);
                }
            }
            Some(DocumentType::Draft(String::from_str(s)))
        } else {
            proof {
                if len > 3 && s@.take(3) == rfc_prefix() {
                    assert(s@.take(3)[0] == s@[0]);
                    assert(s@.take(3)[1] == s@[1]);
                    assert(s@.take(3)[2] == s@[2]);
                }
                if len >= 6 && s@.take(6) == draft_prefix() {
                    assert(s@.take(6)[0] == s@[0]);
                    assert(s@.take(6)[1] == s@[1]);
                    assert(s@.take(6)[2] == s@[2]);
                    assert(s@.take(6)[3] == s@[3]);
                    assert(s@.take(6)[4] == s@[4]);
                    assert(s@.take(6)[5] == s@[5]);
                }
            }
            None
        }
    }
}

} // verus!
