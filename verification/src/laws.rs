//! Properties of the library as a whole.
use vstd::prelude::*;
use vstd::string::*;

use crate::common::{
    Cmd, format_extension, manager_from_name, manager_name, AvailablePackageManager, PkgFormat,
};
use crate::console::{header_text, header_title, without_flag};
use crate::managers::brew::brew_subcommand;
use crate::location::{url_view_well_formed, UrlView};
use crate::outcome::{decimal_text, digit_char, integer_text};
use crate::package::{
    cli_text, display_text, entry_value, fragment_version, last_entry_value, package_from_spec,
    plain_package, PackageError, PackageView,
};
use crate::text::{
    join_with, lemma_split_first_piece, lemma_split_join,
    lemma_split_nonempty, lemma_split_pieces_free_of_sep, lemma_split_without_sep, lower_char,
    eq_ignore_ascii_case, lower_text, split_on,
};

verus! {

/// A specification that is not a URL is read as `manager@name@version`, `manager@name`
/// or `name`: no field holds an `@`, and writing the fields back with `@` between them
/// gives the specification again.
pub proof fn law_plain_spec_round_trip(s: Seq<char>)
    requires
        package_from_spec(s, None) is Ok,
    ensures
        ({
            let p = package_from_spec(s, None)->Ok_0;
            &&& !p.name.contains('@')
            &&& !p.package_manager.contains('@')
            &&& p.url is None
            &&& (p.version matches Some(v) ==> !v.contains('@') && s == p.package_manager
                + seq!['@'] + p.name + seq!['@'] + v)
            &&& (p.version is None ==> s == p.name || s == p.package_manager + seq!['@']
                + p.name)
        }),
{
    let parts = split_on(s, '@');
    lemma_split_join(s, '@');
    lemma_split_pieces_free_of_sep(s, '@');
    lemma_split_nonempty(s, '@');
    assert(!parts[0].contains('@'));
    if parts.len() == 3 {
        assert(!parts[1].contains('@') && !parts[2].contains('@'));
        assert(parts.drop_last().drop_last() =~= seq![parts[0]]);
        assert(parts.drop_last().last() == parts[1]);
        assert(join_with(parts.drop_last(), '@') == join_with(parts.drop_last().drop_last(), '@')
            + seq!['@'] + parts[1]);
        assert(join_with(parts, '@') == join_with(parts.drop_last(), '@') + seq!['@'] + parts[2]);
    } else if parts.len() == 2 {
        assert(!parts[1].contains('@'));
        assert(parts.drop_last() =~= seq![parts[0]]);
        assert(join_with(parts, '@') == join_with(parts.drop_last(), '@') + seq!['@'] + parts[1]);
    }
}

/// A bare name (no `@`, not a URL) is a package of that name with neither manager nor
/// version, and it is written on a command line as the name itself.
pub proof fn law_bare_name(s: Seq<char>, delimiter: char)
    requires
        !s.contains('@'),
    ensures
        package_from_spec(s, None) == Ok::<PackageView, PackageError>(
            plain_package(s, Seq::<char>::empty(), None),
        ),
        cli_text(plain_package(s, Seq::<char>::empty(), None), delimiter) == s,
{
    lemma_split_without_sep(s, '@');
}

/// Splitting a text that ends with the separator and a piece free of it yields the
/// pieces of the text before, then that piece.
pub proof fn lemma_split_append_piece(a: Seq<char>, b: Seq<char>, sep: char)
    requires
        !b.contains(sep),
    ensures
        split_on(a + seq![sep] + b, sep) == split_on(a, sep).push(b),
    decreases b.len(),
{
    let s = a + seq![sep] + b;
    if b.len() == 0 {
        assert(s.drop_last() =~= a);
        assert(b =~= Seq::<char>::empty());
    } else {
        assert(!b.drop_last().contains(sep)) by {
            if b.drop_last().contains(sep) {
                let k = choose|k: int| 0 <= k < b.drop_last().len() && b.drop_last()[k] == sep;
                assert(b[k] == sep);
            }
        }
        lemma_split_append_piece(a, b.drop_last(), sep);
        assert(s.drop_last() =~= a + seq![sep] + b.drop_last());
        assert(s.last() == b.last());
        assert(b.last() != sep) by {
            assert(b[b.len() - 1] == b.last());
        }
        let x = split_on(a, sep).push(b.drop_last());
        assert(x.update(x.len() - 1, x.last().push(b.last())) =~= split_on(a, sep).push(b)) by {
            assert(b.drop_last().push(b.last()) =~= b);
        }
    }
}

/// The value of the entry `key=value` is `value`, when the key holds no `=`.
pub proof fn lemma_entry_value(key: Seq<char>, value: Seq<char>)
    requires
        !key.contains('='),
    ensures
        entry_value(key + seq!['='] + value, key) == Some(value),
{
    let e = key + seq!['='] + value;
    let parts = split_on(e, '=');
    lemma_split_nonempty(e, '=');
    lemma_split_pieces_free_of_sep(e, '=');
    assert(e[key.len() as int] == '=');
    if parts.len() == 1 {
        lemma_split_join(e, '=');
        assert(parts[0] == e);
        assert(e.contains('='));
        assert(false);
    }
    lemma_split_first_piece(e, '=');
    let k = parts[0].len();
    if k < key.len() {
        assert(e[k as int] == key[k as int]);
        assert(key.contains('='));
    }
    if k > key.len() {
        assert(parts[0][key.len() as int] == e[key.len() as int]);
        assert(parts[0].contains('='));
    }
    assert(parts[0] =~= key);
    assert(e.skip(key.len() + 1int) =~= value);
}

/// In a URL fragment the last `version=` entry decides the version: appending one to
/// any fragment makes its value the version.
pub proof fn law_last_version_entry_wins(fragment: Seq<char>, version: Seq<char>)
    requires
        !version.contains(','),
    ensures
        fragment_version(fragment + seq![','] + "version="@ + version) == Some(version),
{
    reveal_strlit("version=");
    reveal_strlit("version");
    let entry = "version"@ + seq!['='] + version;
    assert("version="@ + version =~= entry);
    assert(!entry.contains(',')) by {
        if entry.contains(',') {
            let k = choose|k: int| 0 <= k < entry.len() && entry[k] == ',';
            if k >= 8 {
                assert(version[k - 8] == ',');
            }
        }
    }
    assert(fragment + seq![','] + "version="@ + version =~= fragment + seq![','] + entry);
    lemma_split_append_piece(fragment, entry, ',');
    assert(!"version"@.contains('=')) by {
        if "version"@.contains('=') {
            let k = choose|k: int| 0 <= k < "version"@.len() && "version"@[k] == '=';
        }
    }
    lemma_entry_value("version"@, version);
    let entries = split_on(fragment, ',').push(entry);
    assert(entries.last() == entry);
    assert(last_entry_value(entries, "version"@) == Some(version));
}

/// A package made from a manager, a name and an optional version, none of which holds
/// `@` or `:`, is read back from its manager, `@` and its command-line form: such a text
/// holds no `:`, so `Package::parse` reads it as a plain specification, and that reading
/// gives the package back.
pub proof fn law_cli_round_trip(m: Seq<char>, n: Seq<char>, v: Option<Seq<char>>)
    requires
        !m.contains('@'),
        !n.contains('@'),
        !m.contains(':'),
        !n.contains(':'),
        v matches Some(x) ==> !x.contains('@') && !x.contains(':'),
    ensures
        ({
            let text = m + seq!['@'] + cli_text(plain_package(n, m, v), '@');
            &&& !text.contains(':')
            &&& package_from_spec(text, None) == Ok::<PackageView, PackageError>(
                plain_package(n, m, v),
            )
        }),
{
    let text = m + seq!['@'] + cli_text(plain_package(n, m, v), '@');
    lemma_split_without_sep(m, '@');
    lemma_split_append_piece(m, n, '@');
    match v {
        Some(x) => {
            assert(text =~= (m + seq!['@'] + n) + seq!['@'] + x);
            lemma_split_append_piece(m + seq!['@'] + n, x, '@');
            assert(split_on(text, '@') =~= seq![m, n, x]);
            assert(!text.contains(':')) by {
                if text.contains(':') {
                    let k = choose|k: int| 0 <= k < text.len() && text[k] == ':';
                    if k < m.len() {
                        assert(m[k] == ':');
                    } else if k == m.len() {
                    } else if k < m.len() + 1 + n.len() {
                        assert(n[k - m.len() - 1] == ':');
                    } else if k == m.len() + 1 + n.len() {
                    } else {
                        assert(x[k - m.len() - 2 - n.len()] == ':');
                    }
                }
            }
        },
        None => {
            assert(text =~= m + seq!['@'] + n);
            assert(split_on(text, '@') =~= seq![m, n]);
            assert(!text.contains(':')) by {
                if text.contains(':') {
                    let k = choose|k: int| 0 <= k < text.len() && text[k] == ':';
                    if k < m.len() {
                        assert(m[k] == ':');
                    } else if k == m.len() {
                    } else {
                        assert(n[k - m.len() - 1] == ':');
                    }
                }
            }
        },
    }
}

/// ASCII lower-casing twice is lower-casing once.
pub proof fn lemma_lower_text_idempotent(s: Seq<char>)
    ensures
        lower_text(lower_text(s)) == lower_text(s),
{
    assert forall|i: int| 0 <= i < s.len() implies lower_char(lower_char(s[i])) == lower_char(
        s[i],
    ) by {
        let c = s[i];
        if 'A' <= c && c <= 'Z' {
            assert(((c as u32) + 32) as char >= 'a');
        }
    }
    assert(lower_text(lower_text(s)) =~= lower_text(s));
}

/// Each package manager is found again from its displayed name, and from that name in
/// lower case.
pub proof fn law_manager_name_round_trip(m: AvailablePackageManager)
    ensures
        manager_from_name(manager_name(m)) == Some(m),
        manager_from_name(lower_text(manager_name(m))) == Some(m),
{
    reveal_strlit("Apt");
    reveal_strlit("Brew");
    reveal_strlit("Choco");
    reveal_strlit("Dnf");
    reveal_strlit("Flatpak");
    reveal_strlit("Yum");
    reveal_strlit("Zypper");
    assert(lower_text("Apt"@)[0] == 'a');
    assert(lower_text("Brew"@)[0] == 'b');
    assert(lower_text("Choco"@)[0] == 'c');
    assert(lower_text("Dnf"@)[0] == 'd');
    assert(lower_text("Flatpak"@)[0] == 'f');
    assert(lower_text("Yum"@)[0] == 'y');
    assert(lower_text("Zypper"@)[0] == 'z');
    lemma_lower_text_idempotent(manager_name(m));
}

/// Distinct package formats have distinct file extensions.
pub proof fn law_extensions_distinct(a: PkgFormat, b: PkgFormat)
    requires
        a != b,
    ensures
        format_extension(a) != format_extension(b),
{
    reveal_strlit("tar.gz");
    reveal_strlit("exe");
    reveal_strlit("msi");
    reveal_strlit("rpm");
    reveal_strlit("deb");
    reveal_strlit("flatpak");
    assert(format_extension(a)[0] != format_extension(b)[0] || format_extension(a).len()
        != format_extension(b).len());
}

/// When the width of the terminal is known, the header is exactly that wide, with the
/// title after the left padding.
pub proof fn law_header_fills_width(w: u16)
    requires
        w >= header_title().len(),
    ensures
        header_text(Some(w)).len() == w,
        header_text(Some(w)).subrange(
            (w - header_title().len()) / 2,
            (w - header_title().len()) / 2 + header_title().len(),
        ) == header_title(),
{
    let padding = ((w - header_title().len()) / 2) as nat;
    let t = header_text(Some(w));
    assert(t.subrange(padding as int, padding + header_title().len() as int) =~= header_title());
}

/// A fragment entry gives a version exactly when it starts with `version=`, and the
/// version is what follows.
pub proof fn lemma_version_entry(e: Seq<char>)
    ensures
        entry_value(e, "version"@) == (if "version="@.is_prefix_of(e) {
            Some(e.skip(8))
        } else {
            None
        }),
{
    reveal_strlit("version=");
    reveal_strlit("version");
    assert(!"version"@.contains('=')) by {
        if "version"@.contains('=') {
            let k = choose|k: int| 0 <= k < "version"@.len() && "version"@[k] == '=';
        }
    }
    if "version="@.is_prefix_of(e) {
        assert(e.subrange(0, 8) =~= "version="@);
        assert forall|k: int| 0 <= k < 8 implies e[k] == "version="@[k] by {
            assert(e.subrange(0, 8)[k] == e[k]);
        }
        assert(e =~= "version"@ + seq!['='] + e.skip(8));
        lemma_entry_value("version"@, e.skip(8));
    } else {
        let parts = split_on(e, '=');
        if parts.len() > 1 && parts[0] == "version"@ {
            lemma_split_first_piece(e, '=');
            assert(e.subrange(0, 8) =~= "version="@);
        }
    }
}

/// The version of a list of fragment entries is the value of the last entry that starts
/// with `version=`.
pub proof fn lemma_last_version_entry(es: Seq<Seq<char>>, i: int, v: Seq<char>)
    requires
        0 <= i < es.len(),
        es[i] == "version="@ + v,
        forall|j: int| i < j < es.len() ==> !"version="@.is_prefix_of(#[trigger] es[j]),
    ensures
        last_entry_value(es, "version"@) == Some(v),
    decreases es.len(),
{
    reveal_strlit("version=");
    lemma_version_entry(es.last());
    if i == es.len() - 1 {
        assert("version="@.is_prefix_of(es[i])) by {
            assert(es[i].subrange(0, 8) =~= "version="@);
        }
        assert(es[i].skip(8) =~= v);
    } else {
        assert(!"version="@.is_prefix_of(es[es.len() - 1]));
        lemma_last_version_entry(es.drop_last(), i, v);
    }
}

/// A list of fragment entries of which none starts with `version=` gives no version.
pub proof fn lemma_no_version_entry(es: Seq<Seq<char>>)
    requires
        forall|j: int| 0 <= j < es.len() ==> !"version="@.is_prefix_of(#[trigger] es[j]),
    ensures
        last_entry_value(es, "version"@) is None,
    decreases es.len(),
{
    if es.len() > 0 {
        lemma_version_entry(es.last());
        assert(!"version="@.is_prefix_of(es[es.len() - 1]));
        lemma_no_version_entry(es.drop_last());
    }
}

/// The version of a URL fragment is the value of its last `version=` entry, wherever that
/// entry stands among the comma-separated entries: entries after it that are not
/// version entries do not change it.
pub proof fn law_version_is_last_version_entry(fragment: Seq<char>, i: int, version: Seq<char>)
    requires
        0 <= i < split_on(fragment, ',').len(),
        split_on(fragment, ',')[i] == "version="@ + version,
        forall|j: int|
            i < j < split_on(fragment, ',').len() ==> !"version="@.is_prefix_of(
                #[trigger] split_on(fragment, ',')[j],
            ),
    ensures
        fragment_version(fragment) == Some(version),
{
    lemma_last_version_entry(split_on(fragment, ','), i, version);
}

/// A URL fragment none of whose comma-separated entries starts with `version=` names no
/// version.
pub proof fn law_no_version_entry(fragment: Seq<char>)
    requires
        forall|j: int|
            0 <= j < split_on(fragment, ',').len() ==> !"version="@.is_prefix_of(
                #[trigger] split_on(fragment, ',')[j],
            ),
    ensures
        fragment_version(fragment) is None,
{
    lemma_no_version_entry(split_on(fragment, ','));
}

/// A `version=` entry followed by entries none of which starts with `version=` gives
/// the version: `version=v,rest` names `v`.
pub proof fn law_leading_version_entry(version: Seq<char>, rest: Seq<char>)
    requires
        !version.contains(','),
        forall|j: int|
            0 <= j < split_on(rest, ',').len() ==> !"version="@.is_prefix_of(
                #[trigger] split_on(rest, ',')[j],
            ),
    ensures
        fragment_version("version="@ + version + seq![','] + rest) == Some(version),
{
    reveal_strlit("version=");
    let first = "version="@ + version;
    assert(!first.contains(',')) by {
        if first.contains(',') {
            let k = choose|k: int| 0 <= k < first.len() && first[k] == ',';
            if k >= 8 {
                assert(version[k - 8] == ',');
            }
        }
    }
    lemma_split_prepend_piece(first, rest, ',');
    let es = split_on("version="@ + version + seq![','] + rest, ',');
    assert(es == seq![first] + split_on(rest, ','));
    assert forall|j: int| 0 < j < es.len() implies !"version="@.is_prefix_of(#[trigger] es[j]) by {
        assert(es[j] == split_on(rest, ',')[j - 1]);
    }
    lemma_last_version_entry(es, 0, version);
}

/// Splitting a piece free of the separator, the separator and a text yields that piece,
/// then the pieces of the text.
pub proof fn lemma_split_prepend_piece(a: Seq<char>, b: Seq<char>, sep: char)
    requires
        !a.contains(sep),
    ensures
        split_on(a + seq![sep] + b, sep) == seq![a] + split_on(b, sep),
    decreases b.len(),
{
    let s = a + seq![sep] + b;
    if b.len() == 0 {
        assert(s.drop_last() =~= a);
        lemma_split_without_sep(a, sep);
        assert(seq![a].push(Seq::<char>::empty()) =~= seq![a] + seq![Seq::<char>::empty()]);
    } else {
        lemma_split_prepend_piece(a, b.drop_last(), sep);
        assert(s.drop_last() =~= a + seq![sep] + b.drop_last());
        assert(s.last() == b.last());
        lemma_split_nonempty(b.drop_last(), sep);
        let x = split_on(b.drop_last(), sep);
        if b.last() == sep {
            assert((seq![a] + x).push(Seq::<char>::empty()) =~= seq![a] + x.push(
                Seq::<char>::empty(),
            ));
        } else {
            let y = seq![a] + x;
            assert(y.update(y.len() - 1, y.last().push(b.last())) =~= seq![a] + x.update(
                x.len() - 1,
                x.last().push(b.last()),
            ));
        }
    }
}

/// On a command line, a package with a URL is written as the URL, whatever its name and
/// version: a remote URL in full, a `file` URL as the path after `file://`.
pub proof fn law_cli_text_of_url(p: PackageView, u: UrlView, delimiter: char)
    requires
        p.url == Some(u),
        url_view_well_formed(u),
    ensures
        u.scheme != "file"@ ==> cli_text(p, delimiter) == u.serialization,
        u.scheme == "file"@ ==> "file://"@ + cli_text(p, delimiter) == u.serialization,
        u.scheme == "file"@ ==> cli_text(p, delimiter).len() + 7 == u.serialization.len(),
{
    reveal_strlit("file://");
    if u.scheme == "file"@ {
        assert("file://"@ + u.serialization.skip(7) =~= u.serialization);
    }
}

/// On a command line, a package without a URL is written as its name, followed by the
/// delimiter and the version when it has one.
pub proof fn law_cli_text_without_url(p: PackageView, delimiter: char)
    requires
        p.url is None,
    ensures
        p.version matches Some(v) ==> cli_text(p, delimiter) == p.name + seq![delimiter] + v,
        p.version is None ==> cli_text(p, delimiter) == p.name,
{
}

/// The human-readable form of a package is `name - manager - version`, or
/// `name - manager` without a version, whatever its URL.
pub proof fn law_display_text(p: PackageView, other_url: Option<UrlView>)
    ensures
        p.version matches Some(v) ==> display_text(p) == p.name + " - "@ + p.package_manager
            + " - "@ + v,
        p.version is None ==> display_text(p) == p.name + " - "@ + p.package_manager,
        display_text(PackageView { url: other_url, ..p }) == display_text(p),
{
}

/// Each package manager is named by its own variant.
pub proof fn law_manager_names()
    ensures
        manager_name(AvailablePackageManager::Apt) == "Apt"@,
        manager_name(AvailablePackageManager::Brew) == "Brew"@,
        manager_name(AvailablePackageManager::Choco) == "Choco"@,
        manager_name(AvailablePackageManager::Dnf) == "Dnf"@,
        manager_name(AvailablePackageManager::Flatpak) == "Flatpak"@,
        manager_name(AvailablePackageManager::Yum) == "Yum"@,
        manager_name(AvailablePackageManager::Zypper) == "Zypper"@,
{
}

/// Looking a package manager up by name finds `m` exactly when the text is `m`'s own
/// variant name up to ASCII case.
pub proof fn law_manager_from_name(s: Seq<char>, m: AvailablePackageManager)
    ensures
        manager_from_name(s) == Some(m) <==> eq_ignore_ascii_case(
            s,
            match m {
                AvailablePackageManager::Apt => "Apt"@,
                AvailablePackageManager::Brew => "Brew"@,
                AvailablePackageManager::Choco => "Choco"@,
                AvailablePackageManager::Dnf => "Dnf"@,
                AvailablePackageManager::Flatpak => "Flatpak"@,
                AvailablePackageManager::Yum => "Yum"@,
                AvailablePackageManager::Zypper => "Zypper"@,
            },
        ),
        manager_from_name(s) is None <==> (forall|k: AvailablePackageManager|
            !eq_ignore_ascii_case(s, #[trigger] manager_name(k))),
{
    reveal_strlit("Apt");
    reveal_strlit("Brew");
    reveal_strlit("Choco");
    reveal_strlit("Dnf");
    reveal_strlit("Flatpak");
    reveal_strlit("Yum");
    reveal_strlit("Zypper");
    assert(lower_text("Apt"@)[0] == 'a');
    assert(lower_text("Brew"@)[0] == 'b');
    assert(lower_text("Choco"@)[0] == 'c');
    assert(lower_text("Dnf"@)[0] == 'd');
    assert(lower_text("Flatpak"@)[0] == 'f');
    assert(lower_text("Yum"@)[0] == 'y');
    assert(lower_text("Zypper"@)[0] == 'z');
    if manager_from_name(s) is None {
        assert forall|k: AvailablePackageManager| !eq_ignore_ascii_case(s, #[trigger] manager_name(k)) by {
            match k {
                AvailablePackageManager::Apt => {},
                AvailablePackageManager::Brew => {},
                AvailablePackageManager::Choco => {},
                AvailablePackageManager::Dnf => {},
                AvailablePackageManager::Flatpak => {},
                AvailablePackageManager::Yum => {},
                AvailablePackageManager::Zypper => {},
            }
        }
    } else {
        let k = manager_from_name(s)->Some_0;
        assert(eq_ignore_ascii_case(s, manager_name(k)));
    }
}

/// The number that a text of decimal digits stands for, read left to right.
pub open spec fn numeral_value(s: Seq<char>) -> int
    decreases s.len(),
{
    if s.len() == 0 {
        0
    } else {
        numeral_value(s.drop_last()) * 10 + (s.last() as int - '0' as int)
    }
}

/// The decimal form of a number is its base-10 numeral: only digits, read back it gives
/// the number, and it has no leading zero (zero itself is the single digit `0`).
pub proof fn law_decimal_text_is_numeral(n: nat)
    ensures
        decimal_text(n).len() >= 1,
        forall|i: int| 0 <= i < decimal_text(n).len() ==> '0' <= #[trigger] decimal_text(n)[i] <= '9',
        numeral_value(decimal_text(n)) == n,
        n >= 1 ==> decimal_text(n)[0] != '0',
        n == 0 ==> decimal_text(n) == seq!['0'],
    decreases n,
{
    assert forall|d: nat| d < 10 implies (#[trigger] digit_char(d)) as int == '0' as int + d
        && '0' <= digit_char(d) <= '9' by {
        assert(((48 + d) as u8) as char as int == 48 + d);
    }
    if n >= 10 {
        law_decimal_text_is_numeral(n / 10);
        let t = decimal_text(n / 10);
        assert(decimal_text(n) == t.push(digit_char(n % 10)));
        assert(decimal_text(n).drop_last() =~= t);
        assert(numeral_value(decimal_text(n)) == (n / 10) * 10 + n % 10);
        assert(decimal_text(n)[0] == t[0]);
    } else {
        let t = seq![digit_char(n)];
        assert(decimal_text(n) == t);
        assert(t.drop_last() =~= Seq::<char>::empty());
        assert(t.last() == digit_char(n));
        assert(numeral_value(t) == numeral_value(t.drop_last()) * 10 + (t.last() as int - '0' as int));
        assert(numeral_value(Seq::<char>::empty()) == 0);
        assert(digit_char(n) as int == '0' as int + n);
    }
}

/// The decimal form of an integer is `-` before the numeral of its magnitude when it is
/// negative, else the numeral of the integer itself.
pub proof fn law_integer_text_is_numeral(i: int)
    ensures
        i < 0 ==> integer_text(i)[0] == '-' && numeral_value(integer_text(i).skip(1)) == -i,
        i < 0 ==> integer_text(i).skip(1)[0] != '0',
        i >= 0 ==> numeral_value(integer_text(i)) == i,
{
    if i < 0 {
        law_decimal_text_is_numeral((-i) as nat);
        assert(integer_text(i).skip(1) =~= decimal_text((-i) as nat));
    } else {
        law_decimal_text_is_numeral(i as nat);
    }
}

/// Leaving out a flag keeps every other argument, in order: it is the arguments filtered
/// by being different from the flag.
pub proof fn law_without_flag_is_filter(args: Seq<Seq<char>>, flag: Seq<char>)
    ensures
        without_flag(args, flag) == args.filter(|a: Seq<char>| a != flag),
    decreases args.len(),
{
    reveal(Seq::filter);
    if args.len() > 0 {
        law_without_flag_is_filter(args.drop_last(), flag);
    }
}

/// A specification that parses as a URL with a path names the package by the URL's last
/// path segment, has no package manager, keeps the URL, and takes its version from the
/// URL's fragment (none without a fragment).
pub proof fn law_url_spec(s: Seq<char>, u: UrlView)
    requires
        u.path_segments is Some,
    ensures
        package_from_spec(s, Some(u)) is Ok,
        package_from_spec(s, Some(u))->Ok_0.name == u.path_segments->Some_0.last(),
        package_from_spec(s, Some(u))->Ok_0.package_manager == Seq::<char>::empty(),
        package_from_spec(s, Some(u))->Ok_0.url == Some(u),
        u.fragment matches Some(f) ==> package_from_spec(s, Some(u))->Ok_0.version
            == fragment_version(f),
        u.fragment is None ==> package_from_spec(s, Some(u))->Ok_0.version is None,
        package_from_spec(s, Some(UrlView { path_segments: None, ..u })) == Err::<
            PackageView,
            PackageError,
        >(PackageError::NoPathInUrl),
{
    if u.fragment is None {
        reveal_strlit("version=");
        assert forall|j: int| 0 <= j < split_on(Seq::<char>::empty(), ',').len() implies !"version="@.is_prefix_of(
            #[trigger] split_on(Seq::<char>::empty(), ',')[j]) by {
            assert(split_on(Seq::<char>::empty(), ',')[j] == Seq::<char>::empty());
        }
        lemma_no_version_entry(split_on(Seq::<char>::empty(), ','));
    }
}

/// The file extension of each package format.
pub proof fn law_format_extensions()
    ensures
        format_extension(PkgFormat::Bottle) == "tar.gz"@,
        format_extension(PkgFormat::Exe) == "exe"@,
        format_extension(PkgFormat::Msi) == "msi"@,
        format_extension(PkgFormat::Rpm) == "rpm"@,
        format_extension(PkgFormat::Deb) == "deb"@,
        format_extension(PkgFormat::Flatpak) == "flatpak"@,
{
}

/// The `brew` subcommand of each command; updating one package and updating all run the
/// same subcommand.
pub proof fn law_brew_subcommands()
    ensures
        brew_subcommand(Cmd::Install) == "install"@,
        brew_subcommand(Cmd::Uninstall) == "uninstall"@,
        brew_subcommand(Cmd::Update) == "upgrade"@,
        brew_subcommand(Cmd::UpdateAll) == "upgrade"@,
        brew_subcommand(Cmd::List) == "list"@,
        brew_subcommand(Cmd::Sync) == "update"@,
        brew_subcommand(Cmd::AddRepo) == "tap"@,
        brew_subcommand(Cmd::Search) == "search"@,
        brew_subcommand(Cmd::Outdated) == "outdated"@,
{
}

/// Without a known width the header is a fixed line.
pub proof fn law_header_without_width()
    ensures
        header_text(None) == "-------------------[MPM interactive]----------------"@,
{
}

} // verus!
