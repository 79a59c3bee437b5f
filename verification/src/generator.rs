//! Random password generation from chosen character classes, with minimum
//! counts of digits and symbols.
use vstd::prelude::*;
use crate::error::{VaultError, invalid_input};
use crate::text::{chars_of, string_from_chars};

verus! {

/// Shortest password generated.
pub const MIN_LENGTH: usize = 12;

/// Longest password generated.
pub const MAX_LENGTH: usize = 128;

/// What the caller asks of a generated password.
#[derive(Debug, Clone, Copy)]
pub struct PasswordGeneratorOptions {
    pub length: usize,
    pub lowercase: bool,
    pub uppercase: bool,
    pub numbers: bool,
    pub symbols: bool,
    pub exclude_ambiguous: bool,
    pub min_numbers: usize,
    pub min_symbols: usize,
}

/// A generated password and the size of the alphabet it was drawn from.
#[derive(Debug)]
pub struct GeneratedPassword {
    pub password: String,
    pub alphabet_size: usize,
}

/// The value an unset class flag takes.
pub fn default_true() -> (result: bool)
    ensures
        result,
{
    true
}

/// Lower-case letters, without `l` when ambiguous characters are excluded.
pub open spec fn lower_group(exclude_ambiguous: bool) -> Seq<char> {
    if exclude_ambiguous {
        "abcdefghijkmnopqrstuvwxyz"@
    } else {
        "abcdefghijklmnopqrstuvwxyz"@
    }
}

/// Capital letters, without `I` and `O` when ambiguous characters are
/// excluded.
pub open spec fn upper_group(exclude_ambiguous: bool) -> Seq<char> {
    if exclude_ambiguous {
        "ABCDEFGHJKLMNPQRSTUVWXYZ"@
    } else {
        "ABCDEFGHIJKLMNOPQRSTUVWXYZ"@
    }
}

/// Digits, without `0` and `1` when ambiguous characters are excluded.
pub open spec fn number_group(exclude_ambiguous: bool) -> Seq<char> {
    if exclude_ambiguous {
        "23456789"@
    } else {
        "0123456789"@
    }
}

/// The symbols a password may hold.
pub open spec fn symbol_group() -> Seq<char> {
    "!@#$%^&*()-_=+[]{}:,.?"@
}

/// The enabled classes, in the order lower, upper, digits, symbols.
pub open spec fn spec_groups(o: PasswordGeneratorOptions) -> Seq<Seq<char>> {
    let a = if o.lowercase {
        seq![lower_group(o.exclude_ambiguous)]
    } else {
        Seq::empty()
    };
    let b = if o.uppercase {
        a.push(upper_group(o.exclude_ambiguous))
    } else {
        a
    };
    let c = if o.numbers {
        b.push(number_group(o.exclude_ambiguous))
    } else {
        b
    };
    if o.symbols {
        c.push(symbol_group())
    } else {
        c
    }
}

/// Every enabled class, concatenated.
pub open spec fn spec_alphabet(o: PasswordGeneratorOptions) -> Seq<char> {
    spec_groups(o).flatten_alt()
}

/// Extra digits drawn beyond the one every enabled class gets.
pub open spec fn extra_numbers(o: PasswordGeneratorOptions) -> int {
    if o.numbers && o.min_numbers > 1 {
        o.min_numbers - 1
    } else {
        0
    }
}

/// Extra symbols drawn beyond the one every enabled class gets.
pub open spec fn extra_symbols(o: PasswordGeneratorOptions) -> int {
    if o.symbols && o.min_symbols > 1 {
        o.min_symbols - 1
    } else {
        0
    }
}

/// The detail of the error refusing the options, if they are refused.
pub open spec fn spec_options_error(o: PasswordGeneratorOptions) -> Option<Seq<char>> {
    if !(MIN_LENGTH <= o.length <= MAX_LENGTH) {
        Some("generated password length must be between 12 and 128"@)
    } else if !(o.lowercase || o.uppercase || o.numbers || o.symbols) {
        Some("enable at least one password character class"@)
    } else if o.min_numbers > o.length || o.min_symbols > o.length {
        Some("minimum character counts cannot exceed password length"@)
    } else if o.min_numbers > 0 && !o.numbers {
        Some("minimum number count requires numbers to be enabled"@)
    } else if o.min_symbols > 0 && !o.symbols {
        Some("minimum symbol count requires symbols to be enabled"@)
    } else if spec_groups(o).len() + extra_numbers(o) + extra_symbols(o) > o.length {
        Some("requested minimum character counts exceed password length"@)
    } else {
        None
    }
}

/// The characters drawn before shuffling: one from each enabled class in
/// order, then the extra digits, then the extra symbols, then characters of
/// the whole alphabet up to the requested length.
pub open spec fn spec_drawn_ok(o: PasswordGeneratorOptions, drawn: Seq<char>) -> bool {
    let g = spec_groups(o).len() as int;
    let n = g + extra_numbers(o);
    let s = n + extra_symbols(o);
    &&& drawn.len() == o.length
    &&& forall|k: int| 0 <= k < g ==> spec_groups(o)[k].contains(#[trigger] drawn[k])
    &&& forall|k: int| g <= k < n ==> number_group(o.exclude_ambiguous).contains(#[trigger] drawn[k])
    &&& forall|k: int| n <= k < s ==> symbol_group().contains(#[trigger] drawn[k])
    &&& forall|k: int| s <= k < o.length ==> spec_alphabet(o).contains(#[trigger] drawn[k])
}

/// An index drawn uniformly below `bound` (`rand::Rng::gen_range(0..bound)`
/// on `rand::rngs::OsRng`, which panics on an empty range).
#[verifier::external_body]
fn random_index(bound: usize) -> (result: usize)
    requires
        bound > 0,
    ensures
        result < bound,
{
    rand::Rng::gen_range(&mut rand::rngs::OsRng, 0..bound)
}

/// Shuffles the characters in place
/// (`rand::seq::SliceRandom::shuffle` with `OsRng`): the result is a
/// permutation of the input.
#[verifier::external_body]
fn shuffle_chars(values: &mut Vec<char>)
    ensures
        final(values)@.to_multiset() == old(values)@.to_multiset(),
{
    rand::seq::SliceRandom::shuffle(values.as_mut_slice(), &mut rand::rngs::OsRng)
}

/// One character of `values`, drawn at random.
fn random_from(values: &Vec<char>) -> (result: char)
    requires
        values@.len() > 0,
    ensures
        values@.contains(result),
{
    let i = random_index(values.len());
    values[i]
}

/// The characters of a class text.
fn group_chars(text: &str) -> (result: Vec<char>)
    ensures
        result@ == text@,
{
    chars_of(text)
}

/// Generates a password as the options ask.
pub fn generate_password_with_options(options: PasswordGeneratorOptions) -> (result: Result<
    GeneratedPassword,
    VaultError,
>)
    ensures
        match spec_options_error(options) {
            Some(detail) => result matches Err(VaultError::InvalidInput(d)) && d@ == detail,
            None => result matches Ok(generated) && {
                &&& generated.alphabet_size == spec_alphabet(options).len()
                &&& generated.password@.len() == options.length
                &&& exists|drawn: Seq<char>|
                    spec_drawn_ok(options, drawn) && #[trigger] drawn.to_multiset()
                        == generated.password@.to_multiset()
                &&& forall|i: int|
                    0 <= i < generated.password@.len() ==> spec_alphabet(options).contains(
                        #[trigger] generated.password@[i],
                    )
            },
        },
{
    if options.length < MIN_LENGTH || options.length > MAX_LENGTH {
        return Err(invalid_input("generated password length must be between 12 and 128"));
    }
    if !(options.lowercase || options.uppercase || options.numbers || options.symbols) {
        return Err(invalid_input("enable at least one password character class"));
    }
    if options.min_numbers > options.length || options.min_symbols > options.length {
        return Err(invalid_input("minimum character counts cannot exceed password length"));
    }
    if options.min_numbers > 0 && !options.numbers {
        return Err(invalid_input("minimum number count requires numbers to be enabled"));
    }
    if options.min_symbols > 0 && !options.symbols {
        return Err(invalid_input("minimum symbol count requires symbols to be enabled"));
    }
    let ex = options.exclude_ambiguous;
    let (groups, numbers, symbols) = build_groups(options);
    let ghost gs = spec_groups(options);
    let extra_n: usize = if options.numbers && options.min_numbers > 1 {
        options.min_numbers - 1
    } else {
        0
    };
    let extra_s: usize = if options.symbols && options.min_symbols > 1 {
        options.min_symbols - 1
    } else {
        0
    };
    if groups.len() + extra_n + extra_s > options.length {
        return Err(invalid_input("requested minimum character counts exceed password length"));
    }
    assert(spec_options_error(options) is None);
    assert(groups@.map_values(|v: Vec<char>| v@) =~= gs);
    let alphabet = concat_groups(&groups);
    let mut output: Vec<char> = Vec::new();
    let mut gi: usize = 0;
    while gi < groups.len()
        invariant
            gi <= groups@.len(),
            groups@.len() == gs.len(),
            forall|k: int| 0 <= k < groups@.len() ==> (#[trigger] groups@[k])@ == gs[k] && gs[k].len() > 0,
            output@.len() == gi,
            forall|k: int| 0 <= k < gi ==> gs[k].contains(#[trigger] output@[k]),
        decreases groups@.len() - gi,
    {
        let c = random_from(&groups[gi]);
        output.push(c);
        gi = gi + 1;
    }
    let g = groups.len();
    let mut j: usize = 0;
    while j < extra_n
        invariant
            output@.len() == g + j,
            j <= extra_n,
            numbers@ == number_group(ex),
            numbers@.len() > 0,
            forall|k: int| 0 <= k < g ==> gs[k].contains(#[trigger] output@[k]),
            forall|k: int| g <= k < g + j ==> number_group(ex).contains(#[trigger] output@[k]),
        decreases extra_n - j,
    {
        let c = random_from(&numbers);
        output.push(c);
        j = j + 1;
    }
    let mut j: usize = 0;
    while j < extra_s
        invariant
            output@.len() == g + extra_n + j,
            j <= extra_s,
            symbols@ == symbol_group(),
            symbols@.len() > 0,
            forall|k: int| 0 <= k < g ==> gs[k].contains(#[trigger] output@[k]),
            forall|k: int| g <= k < g + extra_n ==> number_group(ex).contains(#[trigger] output@[k]),
            forall|k: int|
                g + extra_n <= k < g + extra_n + j ==> symbol_group().contains(#[trigger] output@[k]),
        decreases extra_s - j,
    {
        let c = random_from(&symbols);
        output.push(c);
        j = j + 1;
    }
    proof {
        lemma_alphabet_nonempty(options);
    }
    while output.len() < options.length
        invariant
            g + extra_n + extra_s <= output@.len() <= options.length,
            alphabet@ == spec_alphabet(options),
            alphabet@.len() > 0,
            forall|k: int| 0 <= k < g ==> gs[k].contains(#[trigger] output@[k]),
            forall|k: int| g <= k < g + extra_n ==> number_group(ex).contains(#[trigger] output@[k]),
            forall|k: int|
                g + extra_n <= k < g + extra_n + extra_s ==> symbol_group().contains(
                    #[trigger] output@[k],
                ),
            forall|k: int|
                g + extra_n + extra_s <= k < output@.len() ==> spec_alphabet(options).contains(
                    #[trigger] output@[k],
                ),
        decreases options.length - output@.len(),
    {
        let c = random_from(&alphabet);
        output.push(c);
    }
    let ghost drawn = output@;
    assert(spec_drawn_ok(options, drawn));
    proof {
        lemma_drawn_in_alphabet(options, drawn);
    }
    shuffle_chars(&mut output);
    proof {
        broadcast use vstd::seq_lib::group_to_multiset_ensures;
        assert forall|i: int| 0 <= i < output@.len() implies spec_alphabet(options).contains(
            #[trigger] output@[i],
        ) by {
            assert(output@.contains(output@[i]));
            assert(output@.to_multiset().count(output@[i]) > 0);
            assert(drawn.contains(output@[i]));
        }
        assert(output@.to_multiset().len() == drawn.to_multiset().len());
    }
    let password = string_from_chars(output.as_slice());
    Ok(GeneratedPassword { password, alphabet_size: alphabet.len() })
}

/// The enabled classes, and the digit and symbol classes on their own.
fn build_groups(options: PasswordGeneratorOptions) -> (result: (Vec<Vec<char>>, Vec<char>, Vec<char>))
    ensures
        result.0@.len() == spec_groups(options).len(),
        forall|k: int|
            0 <= k < result.0@.len() ==> (#[trigger] result.0@[k])@ == spec_groups(options)[k]
                && spec_groups(options)[k].len() > 0,
        result.1@ == number_group(options.exclude_ambiguous),
        result.1@.len() > 0,
        result.2@ == symbol_group(),
        result.2@.len() > 0,
{
    let ex = options.exclude_ambiguous;
    let lower = if ex {
        group_chars("abcdefghijkmnopqrstuvwxyz")
    } else {
        group_chars("abcdefghijklmnopqrstuvwxyz")
    };
    let upper = if ex {
        group_chars("ABCDEFGHJKLMNPQRSTUVWXYZ")
    } else {
        group_chars("ABCDEFGHIJKLMNOPQRSTUVWXYZ")
    };
    let numbers = if ex {
        group_chars("23456789")
    } else {
        group_chars("0123456789")
    };
    let symbols = group_chars("!@#$%^&*()-_=+[]{}:,.?");
    proof {
        reveal_strlit("abcdefghijkmnopqrstuvwxyz");
        reveal_strlit("abcdefghijklmnopqrstuvwxyz");
        reveal_strlit("ABCDEFGHJKLMNPQRSTUVWXYZ");
        reveal_strlit("ABCDEFGHIJKLMNOPQRSTUVWXYZ");
        reveal_strlit("23456789");
        reveal_strlit("0123456789");
        reveal_strlit("!@#$%^&*()-_=+[]{}:,.?");
    }
    let mut groups: Vec<Vec<char>> = Vec::new();
    if options.lowercase {
        groups.push(lower);
    }
    if options.uppercase {
        groups.push(upper);
    }
    if options.numbers {
        groups.push(group_chars(if ex {
            "23456789"
        } else {
            "0123456789"
        }));
    }
    if options.symbols {
        groups.push(group_chars("!@#$%^&*()-_=+[]{}:,.?"));
    }
    proof {
        assert forall|k: int| 0 <= k < groups@.len() implies (#[trigger] groups@[k])@ == spec_groups(
            options,
        )[k] && spec_groups(options)[k].len() > 0 by {
            lemma_groups_nonempty(options, k);
        }
    }
    (groups, numbers, symbols)
}

/// The classes, concatenated.
fn concat_groups(groups: &Vec<Vec<char>>) -> (result: Vec<char>)
    ensures
        result@ == groups@.map_values(|v: Vec<char>| v@).flatten_alt(),
{
    let ghost gs = groups@.map_values(|v: Vec<char>| v@);
    let mut alphabet: Vec<char> = Vec::new();
    let mut gi: usize = 0;
    while gi < groups.len()
        invariant
            gi <= groups@.len(),
            gs == groups@.map_values(|v: Vec<char>| v@),
            alphabet@ == gs.take(gi as int).flatten_alt(),
        decreases groups@.len() - gi,
    {
        let ghost before = alphabet@;
        let mut k: usize = 0;
        while k < groups[gi].len()
            invariant
                gi < groups@.len(),
                k <= groups@[gi as int]@.len(),
                alphabet@ == before + groups@[gi as int]@.take(k as int),
            decreases groups@[gi as int]@.len() - k,
        {
            alphabet.push(groups[gi][k]);
            proof {
                assert(groups@[gi as int]@.take(k + 1) =~= groups@[gi as int]@.take(k as int).push(
                    groups@[gi as int]@[k as int],
                ));
            }
            k = k + 1;
        }
        proof {
            assert(groups@[gi as int]@.take(groups@[gi as int]@.len() as int) =~= groups@[gi as int]@);
            assert(gs[gi as int] == groups@[gi as int]@);
            assert(gs.take(gi + 1).drop_last() =~= gs.take(gi as int));
            lemma_flatten_push(gs.take(gi + 1));
        }
        gi = gi + 1;
    }
    proof {
        assert(gs.take(gs.len() as int) =~= gs);
    }
    alphabet
}

proof fn lemma_flatten_push(s: Seq<Seq<char>>)
    requires
        s.len() > 0,
    ensures
        s.flatten_alt() == s.drop_last().flatten_alt() + s.last(),
{
}

proof fn lemma_groups_nonempty(o: PasswordGeneratorOptions, k: int)
    requires
        0 <= k < spec_groups(o).len(),
    ensures
        spec_groups(o)[k].len() > 0,
{
    reveal_strlit("abcdefghijkmnopqrstuvwxyz");
    reveal_strlit("abcdefghijklmnopqrstuvwxyz");
    reveal_strlit("ABCDEFGHJKLMNPQRSTUVWXYZ");
    reveal_strlit("ABCDEFGHIJKLMNOPQRSTUVWXYZ");
    reveal_strlit("23456789");
    reveal_strlit("0123456789");
    reveal_strlit("!@#$%^&*()-_=+[]{}:,.?");
}

proof fn lemma_alphabet_nonempty(o: PasswordGeneratorOptions)
    requires
        o.lowercase || o.uppercase || o.numbers || o.symbols,
    ensures
        spec_alphabet(o).len() > 0,
{
    let gs = spec_groups(o);
    lemma_groups_nonempty(o, 0);
    lemma_flatten_contains_group(gs, 0);
}

proof fn lemma_flatten_contains_group(gs: Seq<Seq<char>>, k: int)
    requires
        0 <= k < gs.len(),
    ensures
        gs.flatten_alt().len() >= gs[k].len(),
        forall|c: char| gs[k].contains(c) ==> gs.flatten_alt().contains(c),
    decreases gs.len(),
{
    lemma_flatten_push(gs);
    let init = gs.drop_last();
    if k < gs.len() - 1 {
        lemma_flatten_contains_group(init, k);
        assert(init[k] == gs[k]);
        assert forall|c: char| gs[k].contains(c) implies gs.flatten_alt().contains(c) by {
            assert(init.flatten_alt().contains(c));
            let i = choose|i: int| 0 <= i < init.flatten_alt().len() && init.flatten_alt()[i] == c;
            assert(gs.flatten_alt()[i] == c);
        }
    } else {
        assert forall|c: char| gs[k].contains(c) implies gs.flatten_alt().contains(c) by {
            let i = choose|i: int| 0 <= i < gs[k].len() && gs[k][i] == c;
            assert(gs.flatten_alt()[init.flatten_alt().len() + i] == c);
        }
    }
}

proof fn lemma_drawn_in_alphabet(o: PasswordGeneratorOptions, drawn: Seq<char>)
    requires
        spec_drawn_ok(o, drawn),
        spec_options_error(o) is None,
    ensures
        forall|i: int| 0 <= i < drawn.len() ==> spec_alphabet(o).contains(#[trigger] drawn[i]),
{
    let gs = spec_groups(o);
    let g = gs.len() as int;
    let n = g + extra_numbers(o);
    let s = n + extra_symbols(o);
    assert forall|i: int| 0 <= i < drawn.len() implies spec_alphabet(o).contains(#[trigger] drawn[i]) by {
        if i < g {
            lemma_flatten_contains_group(gs, i);
        } else if i < n {
            let idx = (if o.lowercase { 1int } else { 0int }) + (if o.uppercase { 1int } else { 0int });
            assert(gs[idx] == number_group(o.exclude_ambiguous));
            lemma_flatten_contains_group(gs, idx);
        } else if i < s {
            assert(gs[g - 1] == symbol_group());
            lemma_flatten_contains_group(gs, g - 1);
        }
    }
}

/// Generates a password of `length` characters from all four classes
/// (symbols only if asked), with at least one digit and, with symbols, at
/// least one symbol.
pub fn generate_password(length: usize, symbols: bool) -> (result: Result<GeneratedPassword, VaultError>)
    ensures
        ({
            let o = PasswordGeneratorOptions {
                length,
                lowercase: true,
                uppercase: true,
                numbers: true,
                symbols,
                exclude_ambiguous: true,
                min_numbers: 1,
                min_symbols: if symbols {
                    1
                } else {
                    0
                },
            };
            match spec_options_error(o) {
                Some(detail) => result matches Err(VaultError::InvalidInput(d)) && d@ == detail,
                None => result matches Ok(generated) && {
                    &&& generated.alphabet_size == spec_alphabet(o).len()
                    &&& generated.password@.len() == length
                    &&& exists|drawn: Seq<char>|
                        spec_drawn_ok(o, drawn) && #[trigger] drawn.to_multiset()
                            == generated.password@.to_multiset()
                    &&& forall|i: int|
                        0 <= i < generated.password@.len() ==> spec_alphabet(o).contains(
                            #[trigger] generated.password@[i],
                        )
                },
            }
        }),
{
    generate_password_with_options(
        PasswordGeneratorOptions {
            length,
            lowercase: true,
            uppercase: true,
            numbers: true,
            symbols,
            exclude_ambiguous: true,
            min_numbers: 1,
            min_symbols: if symbols {
                1
            } else {
                0
            },
        },
    )
}

} // verus!
