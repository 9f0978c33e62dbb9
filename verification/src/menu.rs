use vstd::prelude::*;
use crate::console::{decimal_digits, decimal_string};
use crate::text::{chars_of, contains, find_chars, string_from_chars, string_views, trim, trim_chars};

verus! {

/// The text beside the frame-rate slider.
pub open spec fn fps_limit_label_spec(v: u32) -> Seq<char> {
    if v == 0 {
        "Unlimited"@
    } else {
        decimal_digits(v as nat) + " FPS"@
    }
}

/// The frame-rate cap as the settings page shows it: `Unlimited` for 0.
pub fn fps_limit_label(v: u32) -> (s: String)
    ensures
        s@ == fps_limit_label_spec(v),
{
    if v == 0 {
        "Unlimited".to_owned()
    } else {
        let mut s = decimal_string(v as u64);
        s.append(" FPS");
        s
    }
}

/// The name a map is created under from the map page's name field: the
/// field trimmed, when that is not empty and holds no space.
pub fn new_map_name(field: &str) -> (r: Option<String>)
    ensures
        match r {
            Some(n) => n@ == trim(field@) && trim(field@).len() > 0 && !trim(field@).contains(' '),
            None => trim(field@).len() == 0 || trim(field@).contains(' '),
        },
{
    let chars = chars_of(field);
    let t = trim_chars(&chars);
    let n = t.len();
    if n == 0 {
        return None;
    }
    let mut i: usize = 0;
    while i < n
        invariant
            n == t@.len(),
            t@ == trim(field@),
            i <= n,
            forall|k: int| 0 <= k < i ==> t@[k] != ' ',
        decreases n - i,
    {
        if t[i] == ' ' {
            assert(trim(field@)[i as int] == ' ');
            return None;
        }
        i = i + 1;
    }
    Some(string_from_chars(&t))
}

/// A row of the map page: the name, marked when it is the loaded map.
pub fn map_select_label(name: &String, current: &String) -> (s: String)
    ensures
        s@ == name@ + if name@ == current@ {
            "  (LOADED)"@
        } else {
            Seq::empty()
        },
{
    let mut s = name.clone();
    if *name == *current {
        s.append("  (LOADED)");
    }
    s
}

/// `str::to_lowercase` of a text: each character's Unicode lowercase
/// mapping, in order.
pub uninterp spec fn lowercase(s: Seq<char>) -> Seq<char>;

/// `str::to_lowercase`. Its result depends on the text alone; the Unicode
/// mapping itself is left unstated.
#[verifier::external_body]
fn to_lowercase(s: &str) -> (r: String)
    ensures
        r@ == lowercase(s@),
{
    s.to_lowercase()
}

/// Whether a map whose lowercased name is `lowered_name` is shown for the
/// lowercased search text `lowered_search`.
pub open spec fn search_keeps(lowered_name: Seq<char>, lowered_search: Seq<char>) -> bool {
    lowered_search.len() == 0 || contains(lowered_name, lowered_search)
}

/// The names whose lowercased forms (`lowered`, parallel to `names`) are
/// kept for the lowercased search text, in order.
pub open spec fn search_filter(
    names: Seq<Seq<char>>,
    lowered: Seq<Seq<char>>,
    lowered_search: Seq<char>,
) -> Seq<Seq<char>>
    decreases names.len(),
{
    if names.len() == 0 {
        Seq::empty()
    } else {
        let rest = search_filter(names.drop_last(), lowered.drop_last(), lowered_search);
        if search_keeps(lowered.last(), lowered_search) {
            rest.push(names.last())
        } else {
            rest
        }
    }
}

/// The maps to list for a search, given each map's lowercased name and the
/// lowercased search text.
pub fn filter_lowered(maps: &Vec<String>, lowered: &Vec<String>, lowered_search: &String) -> (r: Vec<
    String,
>)
    requires
        lowered@.len() == maps@.len(),
    ensures
        string_views(r@) == search_filter(
            string_views(maps@),
            string_views(lowered@),
            lowered_search@,
        ),
{
    let needle = chars_of(lowered_search.as_str());
    let n = maps.len();
    let mut out: Vec<String> = Vec::new();
    let mut i: usize = 0;
    while i < n
        invariant
            n == maps@.len(),
            n == lowered@.len(),
            i <= n,
            needle@ == lowered_search@,
            string_views(out@) == search_filter(
                string_views(maps@).take(i as int),
                string_views(lowered@).take(i as int),
                lowered_search@,
            ),
        decreases n - i,
    {
        let ghost names_i = string_views(maps@).take(i + 1);
        let ghost lowered_i = string_views(lowered@).take(i + 1);
        assert(names_i.drop_last() =~= string_views(maps@).take(i as int));
        assert(lowered_i.drop_last() =~= string_views(lowered@).take(i as int));
        assert(names_i.last() == maps@[i as int]@);
        assert(lowered_i.last() == lowered@[i as int]@);
        let name_chars = chars_of(lowered[i].as_str());
        let keep = needle.len() == 0 || find_chars(&name_chars, needle.as_slice()).is_some();
        if keep {
            let ghost before = out@;
            out.push(maps[i].clone());
            assert(string_views(out@) =~= string_views(before).push(maps@[i as int]@));
        }
        i = i + 1;
    }
    assert(string_views(maps@).take(n as int) =~= string_views(maps@));
    assert(string_views(lowered@).take(n as int) =~= string_views(lowered@));
    out
}

/// The maps the map page lists for the text in its search box: those
/// whose name, lowercased, contains the lowercased search text (all of
/// them for an empty search), in order.
pub fn search_maps(maps: &Vec<String>, search: &str) -> (r: Vec<String>)
    ensures
        string_views(r@) == search_filter(
            string_views(maps@),
            string_views(maps@).map_values(|m: Seq<char>| lowercase(m)),
            lowercase(search@),
        ),
{
    let lowered_search = to_lowercase(search);
    let n = maps.len();
    let mut lowered: Vec<String> = Vec::new();
    let mut i: usize = 0;
    while i < n
        invariant
            n == maps@.len(),
            i <= n,
            lowered@.len() == i,
            forall|k: int| 0 <= k < i ==> #[trigger] lowered@[k]@ == lowercase(maps@[k]@),
        decreases n - i,
    {
        let l = to_lowercase(maps[i].as_str());
        lowered.push(l);
        i = i + 1;
    }
    assert(string_views(lowered@) =~= string_views(maps@).map_values(|m: Seq<char>| lowercase(m)));
    filter_lowered(maps, &lowered, &lowered_search)
}

} // verus!
