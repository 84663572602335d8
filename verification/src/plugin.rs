//! A loaded plugin: its checked manifest, its directory, its entry script and
//! its icon as a `data:` url; and the order in which loaded plugins are listed.
use vstd::prelude::*;

use base64::Engine;

use crate::entry_path::{entry_error, validate_entry, EntryError, PathStyle};
use crate::manifest::{link_view, sanitize_plugin_links, sanitized_links, PluginManifest};

verus! {

broadcast use vstd::seq_lib::group_to_multiset_ensures;

/// `std::path::PathBuf`, carried through as the plugin's directory.
#[verifier::external_type_specification]
#[verifier::external_body]
pub struct ExPathBuf(std::path::PathBuf);

/// A plugin whose manifest passed the checks and whose files were read.
#[derive(Debug)]
pub struct LoadedPlugin {
    pub manifest: PluginManifest,
    pub plugin_dir: std::path::PathBuf,
    pub entry_script: String,
    pub icon_data_url: String,
}

// ---------------------------------------------------------------------------
// The checked manifest
// ---------------------------------------------------------------------------

/// `after` is `before` with its links sanitized and everything else unchanged.
pub open spec fn links_sanitized(before: PluginManifest, after: PluginManifest) -> bool {
    &&& after.schema_version == before.schema_version
    &&& after.id == before.id
    &&& after.name == before.name
    &&& after.version == before.version
    &&& after.entry == before.entry
    &&& after.icon == before.icon
    &&& after.brand_color == before.brand_color
    &&& after.lines == before.lines
    &&& after.links@.map_values(|l: crate::manifest::PluginLink| link_view(l)) == sanitized_links(
        before.links@,
    )
}

/// The checks a freshly read manifest goes through before the plugin's files
/// are opened: its links are sanitized, and its entry path must be a
/// non-blank relative path that stays inside the plugin directory.
pub fn check_manifest(manifest: PluginManifest, style: PathStyle) -> (r: Result<
    PluginManifest,
    EntryError,
>)
    ensures
        r matches Ok(m) ==> entry_error(manifest.entry@, style) is None && links_sanitized(
            manifest,
            m,
        ),
        r matches Err(e) ==> entry_error(manifest.entry@, style) == Some(e),
        r is Ok <==> entry_error(manifest.entry@, style) is None,
{
    let PluginManifest {
        schema_version,
        id,
        name,
        version,
        entry,
        icon,
        brand_color,
        lines,
        links,
    } = manifest;
    let links = sanitize_plugin_links(id.as_str(), links);
    let checked = PluginManifest {
        schema_version,
        id,
        name,
        version,
        entry,
        icon,
        brand_color,
        lines,
        links,
    };
    match validate_entry(checked.entry.as_str(), style) {
        Ok(()) => Ok(checked),
        Err(e) => Err(e),
    }
}

// ---------------------------------------------------------------------------
// The icon as a data url
// ---------------------------------------------------------------------------

/// The character that encodes the 6-bit value `v` in the standard base64
/// alphabet (RFC 4648): `A`-`Z`, `a`-`z`, `0`-`9`, `+`, `/`.
pub open spec fn base64_digit(v: int) -> char {
    if v < 26 {
        (65 + v) as char
    } else if v < 52 {
        (97 + v - 26) as char
    } else if v < 62 {
        (48 + v - 52) as char
    } else if v == 62 {
        '+'
    } else {
        '/'
    }
}

/// Standard base64 (RFC 4648 alphabet, with `=` padding) of `b`: every group
/// of three bytes becomes four characters, and a final group of one or two
/// bytes becomes two or three characters and padding.
pub open spec fn base64_standard(b: Seq<u8>) -> Seq<char>
    decreases b.len(),
{
    if b.len() == 0 {
        Seq::empty()
    } else {
        let x = b[0] as int;
        let y = if b.len() > 1 { b[1] as int } else { 0int };
        let z = if b.len() > 2 { b[2] as int } else { 0int };
        let c0 = base64_digit(x / 4);
        let c1 = base64_digit((x % 4) * 16 + y / 16);
        let c2 = base64_digit((y % 16) * 4 + z / 64);
        let c3 = base64_digit(z % 64);
        if b.len() == 1 {
            seq![c0, c1, '=', '=']
        } else if b.len() == 2 {
            seq![c0, c1, c2, '=']
        } else {
            seq![c0, c1, c2, c3] + base64_standard(b.skip(3))
        }
    }
}

/// The length of the padded base64 encoding of `n` bytes.
pub open spec fn base64_len(n: int) -> int {
    (n / 3) * 4 + if n % 3 > 0 {
        4int
    } else {
        0int
    }
}

/// `base64::engine::general_purpose::STANDARD.encode`: the standard
/// base64 encoding with padding. It panics when the encoded length does not
/// fit in a `usize`, which the precondition rules out.
#[verifier::external_body]
fn base64_encode(bytes: &[u8]) -> (r: String)
    requires
        base64_len(bytes@.len() as int) <= usize::MAX,
    ensures
        r@ == base64_standard(bytes@),
{
    base64::engine::general_purpose::STANDARD.encode(bytes)
}

/// The start of an svg icon's data url.
pub open spec fn svg_data_url_prefix() -> Seq<char> {
    "data:image/svg+xml;base64,"@
}

/// The data url of an svg icon whose base64 encoding is `encoded`.
pub fn data_url_from_base64(encoded: &str) -> (r: String)
    ensures
        r@ == svg_data_url_prefix() + encoded@,
{
    let mut url = String::from_str("data:image/svg+xml;base64,");
    url.append(encoded);
    url
}

/// The data url of an svg icon read as `icon_bytes`.
pub fn icon_data_url(icon_bytes: &[u8]) -> (r: String)
    requires
        base64_len(icon_bytes@.len() as int) <= usize::MAX,
    ensures
        r@ == svg_data_url_prefix() + base64_standard(icon_bytes@),
{
    let encoded = base64_encode(icon_bytes);
    data_url_from_base64(encoded.as_str())
}

/// The loaded plugin made of a checked manifest, its directory, the text of
/// its entry script and the bytes of its icon.
pub fn assemble_plugin(
    manifest: PluginManifest,
    plugin_dir: std::path::PathBuf,
    entry_script: String,
    icon_bytes: &[u8],
) -> (r: LoadedPlugin)
    requires
        base64_len(icon_bytes@.len() as int) <= usize::MAX,
    ensures
        r.manifest == manifest,
        r.plugin_dir == plugin_dir,
        r.entry_script == entry_script,
        r.icon_data_url@ == svg_data_url_prefix() + base64_standard(icon_bytes@),
{
    let icon_data_url = icon_data_url(icon_bytes);
    LoadedPlugin { manifest, plugin_dir, entry_script, icon_data_url }
}

// ---------------------------------------------------------------------------
// Listing order
// ---------------------------------------------------------------------------

/// Whether `a` comes before or equals `b` in the order of `str`'s `cmp`:
/// lexicographic by character (UTF-8 byte order is code-point order), a
/// proper prefix first.
pub open spec fn id_le(a: Seq<char>, b: Seq<char>) -> bool
    decreases a.len(),
{
    if a.len() == 0 {
        true
    } else if b.len() == 0 {
        false
    } else if a[0] != b[0] {
        (a[0] as int) < (b[0] as int)
    } else {
        id_le(a.drop_first(), b.drop_first())
    }
}

/// The id that plugins are listed by.
pub open spec fn plugin_id(p: LoadedPlugin) -> Seq<char> {
    p.manifest.id@
}

/// Plugins listed in order of id.
pub open spec fn sorted_by_id(s: Seq<LoadedPlugin>) -> bool {
    forall|a: int, b: int| 0 <= a < b < s.len() ==> id_le(plugin_id(s[a]), plugin_id(s[b]))
}

/// Any two ids are ordered one way or the other.
pub proof fn lemma_id_le_total(a: Seq<char>, b: Seq<char>)
    ensures
        id_le(a, b) || id_le(b, a),
    decreases a.len(),
{
    if a.len() > 0 && b.len() > 0 && a[0] == b[0] {
        lemma_id_le_total(a.drop_first(), b.drop_first());
    }
}

/// The order of ids is transitive.
pub proof fn lemma_id_le_transitive(a: Seq<char>, b: Seq<char>, c: Seq<char>)
    requires
        id_le(a, b),
        id_le(b, c),
    ensures
        id_le(a, c),
    decreases a.len(),
{
    if a.len() > 0 && b.len() > 0 && c.len() > 0 && a[0] == b[0] && b[0] == c[0] {
        lemma_id_le_transitive(a.drop_first(), b.drop_first(), c.drop_first());
    }
}


/// The plugins of `s` whose id is `v`, in their order in `s`.
pub open spec fn with_id(s: Seq<LoadedPlugin>, v: Seq<char>) -> Seq<LoadedPlugin> {
    s.filter(|p: LoadedPlugin| plugin_id(p) == v)
}

/// Moving the plugin at `i` to `k`, past plugins whose ids all differ from
/// its own, keeps the order of the plugins of each id.
proof fn lemma_move_keeps_id_order(before: Seq<LoadedPlugin>, i: int, k: int, v: Seq<char>)
    requires
        0 <= k <= i < before.len(),
        forall|m: int| k <= m < i ==> plugin_id(#[trigger] before[m]) != plugin_id(before[i]),
    ensures
        with_id(before.remove(i).insert(k, before[i]), v) == with_id(before, v),
{
    broadcast use Seq::filter_distributes_over_add;

    let pred = |p: LoadedPlugin| plugin_id(p) == v;
    let x = before[i];
    let a = before.subrange(0, k);
    let b = before.subrange(k, i);
    let t = before.subrange(i + 1, before.len() as int);
    let one = seq![x];
    assert(before =~= a + b + one + t);
    assert(before.remove(i).insert(k, x) =~= a + one + b + t);
    reveal(Seq::filter);
    assert(one.drop_last() =~= Seq::<LoadedPlugin>::empty());
    assert(one.drop_last().filter(pred) =~= Seq::<LoadedPlugin>::empty());
    assert(one.last() == x);
    if plugin_id(x) == v {
        assert forall|m: int| 0 <= m < b.len() implies !pred(b[m]) by {
            assert(b[m] == before[k + m]);
        }
        b.lemma_all_neg_filter_empty(pred);
        assert(b.filter(pred) =~= Seq::<LoadedPlugin>::empty());
        assert(one.filter(pred) + b.filter(pred) =~= b.filter(pred) + one.filter(pred));
    } else {
        assert(one.filter(pred) =~= Seq::<LoadedPlugin>::empty());
        assert(one.filter(pred) + b.filter(pred) =~= b.filter(pred) + one.filter(pred));
    }
    assert((a + b + one + t).filter(pred) == a.filter(pred) + b.filter(pred) + one.filter(pred)
        + t.filter(pred));
    assert((a + one + b + t).filter(pred) == a.filter(pred) + one.filter(pred) + b.filter(pred)
        + t.filter(pred));
    assert(a.filter(pred) + b.filter(pred) + one.filter(pred) + t.filter(pred) =~= a.filter(pred)
        + one.filter(pred) + b.filter(pred) + t.filter(pred));
}

/// Whether `a` comes before or equals `b` in the order of ids.
fn id_le_exec(a: &str, b: &str) -> (r: bool)
    ensures
        r == id_le(a@, b@),
{
    let n = a.unicode_len();
    let m = b.unicode_len();
    let mut i: usize = 0;
    assert(a@.skip(0) =~= a@ && b@.skip(0) =~= b@);
    while i < n && i < m
        invariant
            i <= n,
            i <= m,
            n == a@.len(),
            m == b@.len(),
            id_le(a@, b@) == id_le(a@.skip(i as int), b@.skip(i as int)),
        decreases n - i,
    {
        let x = a.get_char(i);
        let y = b.get_char(i);
        if x != y {
            return (x as u32) < (y as u32);
        }
        assert(a@.skip(i as int).drop_first() =~= a@.skip(i + 1));
        assert(b@.skip(i as int).drop_first() =~= b@.skip(i + 1));
        i = i + 1;
    }
    i == n
}

/// Puts the plugins in order of id, the order in which they are listed.
/// The sort is stable: plugins with equal ids keep their relative order.
pub fn sort_plugins_by_id(plugins: &mut Vec<LoadedPlugin>)
    ensures
        final(plugins)@.to_multiset() == old(plugins)@.to_multiset(),
        sorted_by_id(final(plugins)@),
        forall|v: Seq<char>| #[trigger] with_id(final(plugins)@, v) == with_id(old(plugins)@, v),
{
    let n = plugins.len();
    if n == 0 {
        return;
    }
    let mut i: usize = 1;
    while i < n
        invariant
            1 <= i <= n,
            n == plugins@.len(),
            plugins@.to_multiset() == old(plugins)@.to_multiset(),
            forall|v: Seq<char>| #[trigger] with_id(plugins@, v) == with_id(old(plugins)@, v),
            forall|a: int, b: int|
                0 <= a < b < i ==> id_le(plugin_id(plugins@[a]), plugin_id(plugins@[b])),
        decreases n - i,
    {
        let ghost before = plugins@;
        let x = plugins.remove(i);
        let ghost rest = plugins@;
        assert(rest == before.remove(i as int));
        let mut k: usize = 0;
        while k < i && id_le_exec(plugins[k].manifest.id.as_str(), x.manifest.id.as_str())
            invariant
                k <= i,
                i < n,
                plugins@ == rest,
                rest.len() == n - 1,
                forall|m: int| 0 <= m < k ==> id_le(plugin_id(rest[m]), plugin_id(x)),
            decreases i - k,
        {
            k = k + 1;
        }
        proof {
            if k < i {
                lemma_id_le_total(plugin_id(rest[k as int]), plugin_id(x));
            }
        }
        plugins.insert(k, x);
        let ghost after = plugins@;
        assert(after == rest.insert(k as int, x));
        assert forall|a: int, b: int| 0 <= a < b < i + 1 implies id_le(
            plugin_id(after[a]),
            plugin_id(after[b]),
        ) by {
            // positions in `rest` below `i` keep the order they had in `before`
            assert forall|m: int| 0 <= m < i implies rest[m] == before[m] by {}
            if b < k {
                assert(after[a] == rest[a] && after[b] == rest[b]);
            } else if b == k {
                assert(after[a] == rest[a] && after[b] == x);
            } else if a == k {
                assert(after[b] == rest[b - 1]);
                assert(k < i);
                if b - 1 > k {
                    lemma_id_le_transitive(
                        plugin_id(x),
                        plugin_id(rest[k as int]),
                        plugin_id(rest[b - 1]),
                    );
                }
            } else if a < k {
                assert(after[a] == rest[a] && after[b] == rest[b - 1]);
            } else {
                assert(after[a] == rest[a - 1] && after[b] == rest[b - 1]);
            }
        }
        assert forall|m: int| k <= m < i implies plugin_id(#[trigger] before[m]) != plugin_id(
            before[i as int],
        ) by {
            assert(rest[m] == before[m]);
            assert(rest[k as int] == before[k as int]);
            if m > k {
                assert(id_le(plugin_id(before[k as int]), plugin_id(before[m])));
            }
        }
        assert forall|v: Seq<char>| #[trigger] with_id(after, v) == with_id(before, v) by {
            lemma_move_keeps_id_order(before, i as int, k as int, v);
        }
        proof {
            vstd::seq_lib::to_multiset_remove(before, i as int);
            vstd::seq_lib::to_multiset_insert(rest, k as int, x);
        }
        i = i + 1;
    }
}

} // verus!
