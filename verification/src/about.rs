use vstd::prelude::*;

verus! {

/// The label of the "about" window.
pub open spec fn about_label() -> Seq<char> {
    "about"@
}

/// The brightness that the clock starts with, before the user moves the slider.
pub open spec fn initial_brightness() -> u8 {
    220
}

/// The character of a decimal digit `d`, `0 <= d < 10`.
pub open spec fn digit_char(d: int) -> char {
    seq!['0', '1', '2', '3', '4', '5', '6', '7', '8', '9'][d]
}

/// The decimal numeral of `n`, without leading zeros.
pub open spec fn decimal(n: nat) -> Seq<char>
    decreases n,
{
    if n < 10 {
        seq![digit_char(n as int)]
    } else {
        decimal(n / 10).push(digit_char((n % 10) as int))
    }
}

/// The number that a string of decimal digits denotes, most significant first.
pub open spec fn numeral_value(s: Seq<char>) -> int
    decreases s.len(),
{
    if s.len() == 0 {
        0
    } else {
        numeral_value(s.drop_last()) * 10 + ((s.last() as int) - ('0' as int))
    }
}

/// Digit `d` is the character `d` code points after `0`.
pub proof fn lemma_digit_char_code(d: int)
    requires
        0 <= d < 10,
    ensures
        digit_char(d) as int == ('0' as int) + d,
        '0' <= digit_char(d) <= '9',
{
    if d == 0 {
    } else if d == 1 {
    } else if d == 2 {
    } else if d == 3 {
    } else if d == 4 {
    } else if d == 5 {
    } else if d == 6 {
    } else if d == 7 {
    } else if d == 8 {
    } else {
    }
}

/// `decimal(n)` is the base-10 numeral of `n`: it is made of the digits `0` to `9`,
/// it reads back as `n`, and it starts with `0` only for zero itself.
pub proof fn lemma_decimal_is_base_ten(n: nat)
    ensures
        decimal(n).len() > 0,
        forall|i: int| 0 <= i < decimal(n).len() ==> '0' <= #[trigger] decimal(n)[i] <= '9',
        numeral_value(decimal(n)) == n,
        decimal(n)[0] == '0' ==> n == 0,
    decreases n,
{
    if n < 10 {
        lemma_digit_char_code(n as int);
        assert(decimal(n).drop_last() =~= Seq::<char>::empty());
        assert(numeral_value(decimal(n).drop_last()) == 0);
        assert(decimal(n).last() == digit_char(n as int));
    } else {
        lemma_decimal_is_base_ten(n / 10);
        lemma_digit_char_code((n % 10) as int);
        let d = decimal(n);
        assert(d.drop_last() =~= decimal(n / 10));
        assert(d[0] == decimal(n / 10)[0]);
        assert(n == (n / 10) * 10 + n % 10) by (nonlinear_arith);
        assert(d.last() == digit_char((n % 10) as int));
        assert(numeral_value(d) == numeral_value(decimal(n / 10)) * 10 + ((d.last() as int) - ('0' as int)));
        assert forall|i: int| 0 <= i < d.len() implies '0' <= #[trigger] d[i] <= '9' by {
            if i < d.len() - 1 {
                assert(d[i] == decimal(n / 10)[i]);
            }
        }
    }
}

/// The page that the "about" window loads: `about.html?v=<version>&b=<brightness>`;
/// the page renders dark for a brightness of 127 or below.
pub open spec fn about_url_for(version: Seq<char>, brightness: u8) -> Seq<char> {
    "about.html?v="@ + version + "&b="@ + decimal(brightness as nat)
}

/// The page address names the page `about.html`, then `v=` with the version, then
/// `&b=` with digits that read back as the brightness level.
pub proof fn lemma_about_page_carries_version_and_brightness(version: Seq<char>, b: u8)
    ensures
        ({
            let u = about_url_for(version, b);
            let n = (u.len() - decimal(b as nat).len()) as int;
            &&& u.take(13) == seq!['a', 'b', 'o', 'u', 't', '.', 'h', 't', 'm', 'l', '?', 'v', '=']
            &&& u.subrange(13, 13 + version.len() as int) == version
            &&& u.subrange(13 + version.len() as int, n) == seq!['&', 'b', '=']
            &&& numeral_value(u.skip(n)) == b
            &&& forall|i: int| n <= i < u.len() ==> '0' <= #[trigger] u[i] <= '9'
        }),
{
    reveal_strlit("about.html?v=");
    reveal_strlit("&b=");
    let d = decimal(b as nat);
    lemma_decimal_is_base_ten(b as nat);
    let u = about_url_for(version, b);
    let p = "about.html?v="@;
    let q = "&b="@;
    assert(p =~= seq!['a', 'b', 'o', 'u', 't', '.', 'h', 't', 'm', 'l', '?', 'v', '=']);
    assert(q =~= seq!['&', 'b', '=']);
    assert(u == p + version + q + d);
    let n = (u.len() - d.len()) as int;
    assert(u.take(13) =~= p);
    assert(u.subrange(13, 13 + version.len() as int) =~= version);
    assert(u.subrange(13 + version.len() as int, n) =~= q);
    assert(u.skip(n) =~= d);
    assert forall|i: int| n <= i < u.len() implies '0' <= #[trigger] u[i] <= '9' by {
        assert(u[i] == d[i - n]);
    }
}

/// The title of the "about" window.
pub open spec fn about_title() -> Seq<char> {
    "프로그램 정보"@
}

/// The brightness level (0 to 255) of the clock, kept so that the "about" window
/// can match it.
pub struct Brightness {
    level: u8,
}

impl View for Brightness {
    type V = u8;

    closed spec fn view(&self) -> u8 {
        self.level
    }
}

impl Brightness {
    /// The brightness at start.
    pub fn new() -> (r: Brightness)
        ensures
            r@ == initial_brightness(),
    {
        Brightness { level: 220 }
    }

    /// Records the slider's new level.
    pub fn set(&mut self, level: u8)
        ensures
            final(self)@ == level,
    {
        self.level = level;
    }

    /// The last level recorded.
    pub fn get(&self) -> (r: u8)
        ensures
            r == self@,
    {
        self.level
    }
}

/// The "about" window to create: its label, its title and the page it loads.
pub struct AboutWindow {
    pub label: String,
    pub title: String,
    pub url: String,
}

/// The label of the "about" window.
pub fn about_window_label() -> (r: String)
    ensures
        r@ == about_label(),
{
    String::from_str("about")
}

fn digit_str(d: u8) -> (r: &'static str)
    requires
        d < 10,
    ensures
        r@ == seq![digit_char(d as int)],
{
    proof {
        reveal_strlit("0");
        reveal_strlit("1");
        reveal_strlit("2");
        reveal_strlit("3");
        reveal_strlit("4");
        reveal_strlit("5");
        reveal_strlit("6");
        reveal_strlit("7");
        reveal_strlit("8");
        reveal_strlit("9");
    }
    let r = if d == 0 {
        "0"
    } else if d == 1 {
        "1"
    } else if d == 2 {
        "2"
    } else if d == 3 {
        "3"
    } else if d == 4 {
        "4"
    } else if d == 5 {
        "5"
    } else if d == 6 {
        "6"
    } else if d == 7 {
        "7"
    } else if d == 8 {
        "8"
    } else {
        "9"
    };
    assert(r@ =~= seq![digit_char(d as int)]);
    r
}

/// The decimal numeral of `n`.
pub fn decimal_u8(n: u8) -> (r: String)
    ensures
        r@ == decimal(n as nat),
{
    let mut s = String::new();
    if n >= 100 {
        s.append(digit_str(n / 100));
    }
    if n >= 10 {
        s.append(digit_str((n / 10) % 10));
    }
    s.append(digit_str(n % 10));
    proof {
        let m = n as nat;
        if m >= 100 {
            assert(decimal(m / 100) == seq![digit_char((m / 100) as int)]);
            assert((m / 10) / 10 == m / 100);
            assert(decimal(m / 10) == decimal(m / 100).push(digit_char(((m / 10) % 10) as int)));
        } else if m >= 10 {
            assert(decimal(m / 10) == seq![digit_char((m / 10) as int)]);
            assert((m / 10) % 10 == m / 10);
        }
        assert(s@ =~= decimal(m));
    }
    s
}

/// The page that the "about" window loads (see `about_url_for`).
pub fn about_url(version: &str, brightness: u8) -> (r: String)
    ensures
        r@ == about_url_for(version@, brightness),
{
    let mut u = String::from_str("about.html?v=");
    u.append(version);
    u.append("&b=");
    let b = decimal_u8(brightness);
    u.append(b.as_str());
    u
}

/// The "about" window for this app version and brightness: label `about`, title
/// 프로그램 정보, and the page of `about_url_for`.
pub fn about_window(version: &str, brightness: u8) -> (r: AboutWindow)
    ensures
        r.label@ == about_label(),
        r.title@ == about_title(),
        r.url@ == about_url_for(version@, brightness),
{
    AboutWindow {
        label: about_window_label(),
        title: String::from_str("프로그램 정보"),
        url: about_url(version, brightness),
    }
}

} // verus!
