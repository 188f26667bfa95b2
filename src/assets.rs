//! Paths of the sound and font assets.

use vstd::prelude::*;

verus! {

/// Directory that holds every asset.
pub open spec fn assets_dir() -> Seq<char> {
    seq!['a', 's', 's', 'e', 't', 's']
}

/// Extension of the sound files, dot included.
pub open spec fn sound_ext() -> Seq<char> {
    seq!['.', 'o', 'g', 'g']
}

/// Path of the asset file `file`, relative to the working directory.
pub open spec fn asset_path(file: Seq<char>) -> Seq<char> {
    assets_dir() + seq!['/'] + file
}

/// ASCII lower case: `A`..`Z` become `a`..`z`, every other char stays.
pub open spec fn lower(c: char) -> char {
    if 'A' <= c && c <= 'Z' {
        ((c as u32) + 32) as char
    } else {
        c
    }
}

/// `lower` applied to each char of `s`.
pub open spec fn lower_seq(s: Seq<char>) -> Seq<char> {
    s.map_values(|c: char| lower(c))
}

/// Path of the sound of a letter or word named `name`: lower-cased, with the
/// sound extension, under the assets directory.
pub open spec fn sound_path(name: Seq<char>) -> Seq<char> {
    asset_path(lower_seq(name) + sound_ext())
}

/// Relies on `String::push`: appends one char to the string.
#[verifier::external_body]
pub(crate) fn push_char(s: &mut String, c: char)
    ensures
        final(s)@ == old(s)@.push(c),
{
    s.push(c)
}

/// The path of `file` under the assets directory.
pub fn get_asset(file: String) -> (r: String)
    ensures
        r@ == asset_path(file@),
{
    let mut r = String::from_str("assets/");
    r.append(file.as_str());
    proof {
        reveal_strlit("assets/");
        assert(r@ =~= asset_path(file@));
    }
    r
}

/// ASCII lower case of one char.
pub fn lower_char(c: char) -> (r: char)
    ensures
        r == lower(c),
{
    if 'A' <= c && c <= 'Z' {
        ((c as u8) + 32) as char
    } else {
        c
    }
}

/// The sound path of the name `name`.
pub fn sound_path_of(name: &Vec<char>) -> (r: String)
    ensures
        r@ == sound_path(name@),
{
    let mut file = String::new();
    let mut i: usize = 0;
    while i < name.len()
        invariant
            i <= name@.len(),
            file@ == lower_seq(name@.take(i as int)),
        decreases name@.len() - i,
    {
        let c = lower_char(name[i]);
        push_char(&mut file, c);
        i = i + 1;
        proof {
            assert(lower_seq(name@.take(i as int)) =~= lower_seq(name@.take(i - 1)).push(lower(name@[i - 1])));
        }
    }
    file.append(".ogg");
    proof {
        reveal_strlit(".ogg");
        assert(name@.take(name@.len() as int) =~= name@);
    }
    let r = get_asset(file);
    proof {
        assert(r@ =~= sound_path(name@));
    }
    r
}

} // verus!
