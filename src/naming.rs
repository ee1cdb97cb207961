use vstd::prelude::*;

verus! {

/// The character of a decimal digit.
pub open spec fn digit_char(d: nat) -> char {
    if d == 0 { '0' }
    else if d == 1 { '1' }
    else if d == 2 { '2' }
    else if d == 3 { '3' }
    else if d == 4 { '4' }
    else if d == 5 { '5' }
    else if d == 6 { '6' }
    else if d == 7 { '7' }
    else if d == 8 { '8' }
    else { '9' }
}

/// The decimal text of `n`, without leading zeros.
pub open spec fn decimal(n: nat) -> Seq<char>
    decreases n,
{
    if n < 10 {
        seq![digit_char(n)]
    } else {
        decimal(n / 10).push(digit_char(n % 10))
    }
}

/// The name of the file that holds the image at `index` of a result saved at `stamp`.
pub open spec fn file_name(stamp: Seq<char>, index: nat) -> Seq<char> {
    stamp + seq!['_'] + decimal(index) + seq!['.', 'p', 'n', 'g']
}

proof fn lemma_decimal_nonempty(n: nat)
    ensures
        decimal(n).len() >= 1,
        n >= 10 ==> decimal(n).len() >= 2,
    decreases n,
{
    if n >= 10 {
        lemma_decimal_nonempty(n / 10);
    }
}

proof fn lemma_digit_char_injective(a: nat, b: nat)
    requires
        a < 10,
        b < 10,
        digit_char(a) == digit_char(b),
    ensures
        a == b,
{
}

/// Distinct numbers have distinct decimal texts.
pub proof fn lemma_decimal_injective(i: nat, j: nat)
    requires
        decimal(i) == decimal(j),
    ensures
        i == j,
    decreases i,
{
    lemma_decimal_nonempty(i);
    lemma_decimal_nonempty(j);
    if i >= 10 && j >= 10 {
        let di = decimal(i);
        let dj = decimal(j);
        assert(di.last() == dj.last());
        lemma_digit_char_injective(i % 10, j % 10);
        assert(di.drop_last() =~= decimal(i / 10));
        assert(dj.drop_last() =~= decimal(j / 10));
        lemma_decimal_injective(i / 10, j / 10);
    } else if i < 10 && j < 10 {
        assert(decimal(i) =~= seq![digit_char(i)]);
        assert(decimal(j) =~= seq![digit_char(j)]);
        assert(decimal(i)[0] == decimal(j)[0]);
        assert(decimal(i)[0] == digit_char(i));
        assert(decimal(j)[0] == digit_char(j));
        lemma_digit_char_injective(i, j);
    }
}

/// Within one result, the images get pairwise distinct file names, whatever the stamp.
pub proof fn lemma_file_names_distinct(stamp: Seq<char>, i: nat, j: nat)
    requires
        i != j,
    ensures
        file_name(stamp, i) != file_name(stamp, j),
{
    if file_name(stamp, i) == file_name(stamp, j) {
        let a = file_name(stamp, i);
        let b = file_name(stamp, j);
        let lo = stamp.len() + 1;
        assert(a.subrange(lo as int, a.len() - 4) =~= decimal(i));
        assert(b.subrange(lo as int, b.len() - 4) =~= decimal(j));
        lemma_decimal_injective(i, j);
    }
}

fn digit_text(d: usize) -> (r: &'static str)
    requires
        d < 10,
    ensures
        r@ == seq![digit_char(d as nat)],
{
    proof {
        reveal_strlit("0");
        reveal_strlit("1");
        reveal_strlit("2");
        reveal_strlit("3");
        reveal_strlit("4");
        reveal_strlit("5");
        reveal_strlit("6");
        reveal_strlit("7");
        reveal_strlit("8");
        reveal_strlit("9");
    }
    if d == 0 { "0" }
    else if d == 1 { "1" }
    else if d == 2 { "2" }
    else if d == 3 { "3" }
    else if d == 4 { "4" }
    else if d == 5 { "5" }
    else if d == 6 { "6" }
    else if d == 7 { "7" }
    else if d == 8 { "8" }
    else { "9" }
}

/// Writes `n` in decimal.
pub fn decimal_text(n: usize) -> (r: String)
    ensures
        r@ == decimal(n as nat),
    decreases n,
{
    if n < 10 {
        String::from_str(digit_text(n))
    } else {
        let mut s = decimal_text(n / 10);
        s.append(digit_text(n % 10));
        s
    }
}

/// The file name `<stamp>_<index>.png`.
pub fn image_file_name(stamp: &str, index: usize) -> (r: String)
    ensures
        r@ == file_name(stamp@, index as nat),
{
    proof {
        reveal_strlit("_");
        reveal_strlit(".png");
    }
    let mut s = String::from_str(stamp);
    s.append("_");
    let d = decimal_text(index);
    s.append(d.as_str());
    s.append(".png");
    s
}

} // verus!
