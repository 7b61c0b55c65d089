use vstd::prelude::*;

use crate::errors::WadError;
use crate::textures::Textures;
use crate::wad::WadFile;

verus! {

/// What the episode-map pattern captures in a map name: the first
/// `e<digits>m<digits>` occurrence's two numbers, when the name has one
/// and the digits fit. A function of the name alone.
pub uninterp spec fn episode_map_capture(s: Seq<char>) -> Option<(u32, u32)>;

/// What the two-digit pattern captures in a map name: the first pair of
/// adjacent digits, when the name has one. A function of the name alone.
pub uninterp spec fn map_number_capture(s: Seq<char>) -> Option<u32>;

/// Relies on regex::Regex::captures with the pattern `e(\d+)m(\d+)`, and
/// on str::parse for the captured digit runs.
#[verifier::external_body]
fn capture_episode_map(name: &str) -> (r: Option<(u32, u32)>)
    ensures
        r == episode_map_capture(name@),
{
    let re = regex::Regex::new(r"e(\d+)m(\d+)").unwrap();
    let caps = re.captures(name)?;
    let episode = caps.get(1)?.as_str().parse().ok()?;
    let map_number = caps.get(2)?.as_str().parse().ok()?;
    Some((episode, map_number))
}

/// Relies on regex::Regex::captures with the pattern `(\d\d)`, and on
/// str::parse for the captured digits.
#[verifier::external_body]
fn capture_map_number(name: &str) -> (r: Option<u32>)
    ensures
        r == map_number_capture(name@),
{
    let re = regex::Regex::new(r"(\d\d)").unwrap();
    let caps = re.captures(name)?;
    caps.get(1)?.as_str().parse().ok()
}

/// The sky texture number a map name selects: episode-style names map by
/// episode (unknown episodes fall back to 1); two-digit names map in the
/// bands below 12, below 21, and above; anything else falls back to 1.
pub open spec fn spec_sky_number(em: Option<(u32, u32)>, mn: Option<u32>) -> int {
    match em {
        Some(pair) => {
            if pair.0 == 1 {
                1
            } else if pair.0 == 2 {
                2
            } else if pair.0 == 3 {
                3
            } else {
                1
            }
        },
        None => match mn {
            Some(m) => {
                if m < 12 {
                    1
                } else if m < 21 {
                    2
                } else {
                    3
                }
            },
            None => 1,
        },
    }
}

/// Decide the sky texture number from the two capture results.
pub fn sky_number(em: Option<(u32, u32)>, mn: Option<u32>) -> (r: u8)
    ensures
        r == spec_sky_number(em, mn),
        1 <= r <= 3,
{
    match em {
        Some(pair) => {
            if pair.0 == 1 {
                1
            } else if pair.0 == 2 {
                2
            } else if pair.0 == 3 {
                3
            } else {
                1
            }
        },
        None => match mn {
            Some(m) => {
                if m < 12 {
                    1
                } else if m < 21 {
                    2
                } else {
                    3
                }
            },
            None => 1,
        },
    }
}

/// Does the name contain the bytes "SKY"? Sky flats and sky ceilings are
/// recognized by this substring.
pub open spec fn spec_contains_sky(name: Seq<u8>) -> bool {
    exists|i: int|
        0 <= i && i + 3 <= name.len() && name[i] == 83 && #[trigger] name[i + 1] == 75 && name[i
            + 2] == 89
}

/// Scan a canonical name for the "SKY" substring.
pub fn name_contains_sky(name: &Vec<u8>) -> (r: bool)
    ensures
        r <==> spec_contains_sky(name@),
{
    if name.len() < 3 {
        return false;
    }
    let mut i: usize = 0;
    while i <= name.len() - 3
        invariant
            name@.len() >= 3,
            i + 2 <= name@.len(),
            forall|j: int|
                0 <= j < i ==> !(name@[j] == 83 && #[trigger] name@[j + 1] == 75 && name@[j + 2]
                    == 89),
        decreases name@.len() - i,
    {
        if name[i] == 83 && name[i + 1] == 75 && name[i + 2] == 89 {
            return true;
        }
        i = i + 1;
    }
    false
}

/// The canonical name of a numbered sky texture.
pub open spec fn spec_sky_name(n: int) -> Seq<u8> {
    seq![83u8, 75u8, 89u8, (48 + n) as u8]
}

/// The sky texture for a map name: SKY1, SKY2 or SKY3 per the name's
/// episode or map number. Returns the texture's index in the store.
/// Succeeds exactly when the selected sky name has a definition whose
/// texture is cached or composes; it fails with `UnknownTexture` when the
/// name has none.
pub fn get_sky_texture(textures: &mut Textures, wad: &WadFile, map_name: &str) -> (r: Result<
    usize,
    WadError,
>)
    requires
        old(textures).wf(),
        *wad == old(textures).wad_snap@,
    ensures
        final(textures).wf(),
        final(textures).wad_snap@ == old(textures).wad_snap@,
        final(textures).definitions@ == old(textures).definitions@,
        final(textures).pnames@ == old(textures).pnames@,
        r matches Ok(i) ==> {
            &&& i < final(textures).definitions@.len()
            &&& Some(i as int) == crate::textures::spec_find_def(
                old(textures).definitions@,
                spec_sky_name(
                    spec_sky_number(
                        episode_map_capture(map_name@),
                        map_number_capture(map_name@),
                    ),
                ),
                0,
            )
            &&& final(textures).definitions@[i as int].name@ == spec_sky_name(
                spec_sky_number(
                    episode_map_capture(map_name@),
                    map_number_capture(map_name@),
                ),
            )
            &&& final(textures).loaded@[i as int] is Some
        },
        r matches Err(e) ==> final(textures).loaded@ == old(textures).loaded@ && (match
            crate::textures::spec_find_def(
            old(textures).definitions@,
            spec_sky_name(
                spec_sky_number(episode_map_capture(map_name@), map_number_capture(map_name@)),
            ),
            0,
        ) {
            Some(fi) => old(textures).loaded@[fi] is None && !(forall|j: int|
                0 <= j < old(textures).definitions@[fi].patches@.len()
                    ==> crate::textures::spec_patch_ok(
                    #[trigger] old(textures).definitions@[fi].patches@[j],
                    old(textures).pnames@,
                    *wad,
                )),
            None => e == WadError::UnknownTexture,
        }),
        (crate::textures::spec_find_def(
            old(textures).definitions@,
            spec_sky_name(
                spec_sky_number(episode_map_capture(map_name@), map_number_capture(map_name@)),
            ),
            0,
        ) matches Some(fi) && (old(textures).loaded@[fi] is Some || (forall|j: int|
            0 <= j < old(textures).definitions@[fi].patches@.len()
                ==> crate::textures::spec_patch_ok(
                #[trigger] old(textures).definitions@[fi].patches@[j],
                old(textures).pnames@,
                *wad,
            )))) ==> r is Ok,
{
    let em = capture_episode_map(map_name);
    let mn = capture_map_number(map_name);
    let n = sky_number(em, mn);
    let name: Vec<u8> = vec![83, 75, 89, 48 + n];
    proof {
        assert(crate::bytes::spec_upper_seq(name@) =~= spec_sky_name(n as int));
    }
    textures.get(wad, &name)
}

} // verus!
