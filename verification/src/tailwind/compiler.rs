//! Finding Tailwind class names in source text and turning them into CSS.
use vstd::prelude::*;
use vstd::utf8::{decode_utf8, valid_utf8};
use vstd::string::StringSliceAdditionalSpecFns;
use vstd::hash_set::StringHashSet;
use tailwind_rs_core::CssGenerator;
use tailwind_rs_core::error::TailwindError;
use crate::text::{split_whitespace, texts, whitespace_tokens};

verus! {

/// Declares `tailwind_rs_core::CssGenerator`.
#[verifier::external_type_specification]
#[verifier::external_body]
pub struct ExCssGenerator(CssGenerator);

/// Declares `tailwind_rs_core::error::TailwindError`.
#[verifier::external_type_specification]
#[verifier::external_body]
pub struct ExTailwindError(TailwindError);

/// The rules a generator holds (its rule map): for each class name, the
/// rule's block as the stylesheet prints it (selector, declarations, closing
/// brace) and the rule's media query, if it has one.
pub uninterp spec fn generator_rules(g: CssGenerator) -> Map<Seq<char>, (Seq<char>, Option<Seq<char>>)>;

/// The rule Tailwind makes for `class` (`CssGenerator::class_to_css_rule`
/// with the fixed parsers of a generator): its printed block and media query.
pub uninterp spec fn tailwind_rule(class: Seq<char>) -> (Seq<char>, Option<Seq<char>>);

/// The names of the custom CSS properties a generator holds.
pub uninterp spec fn generator_custom_properties(g: CssGenerator) -> Set<Seq<char>>;

/// `CssGenerator::new`: a generator with no rules and no custom properties.
#[verifier::external_body]
fn css_generator_new() -> (g: CssGenerator)
    ensures
        generator_rules(g).dom() == Set::<Seq<char>>::empty(),
        generator_custom_properties(g) == Set::<Seq<char>>::empty(),
{
    CssGenerator::new()
}

/// Whether Tailwind turns `class` into a CSS rule; a name for the outcome of
/// `CssGenerator::add_class`, which depends on the class alone (its parsers
/// are fixed when the generator is made).
pub uninterp spec fn tailwind_accepts(class: Seq<char>) -> bool;

/// `CssGenerator::add_class`: it succeeds for the classes Tailwind knows, and
/// then the class gains the rule Tailwind makes for it; on failure the
/// generator is left as it was.
#[verifier::external_body]
fn css_generator_add_class(g: &mut CssGenerator, class: &str) -> (r: Result<(), TailwindError>)
    ensures
        r is Ok <==> tailwind_accepts(class@),
        generator_custom_properties(*final(g)) == generator_custom_properties(*old(g)),
        match r {
            Ok(_) => generator_rules(*final(g)) == generator_rules(*old(g)).insert(class@, tailwind_rule(class@)),
            Err(_) => generator_rules(*final(g)) == generator_rules(*old(g)),
        },
{
    g.add_class(class)
}

/// `CssGenerator::generate_css`: the output is empty exactly when there are
/// no rules and no custom properties (each rule prints its block). Without
/// custom properties it is a rendering of the rules (`rendering_of`): the
/// blocks of the rules without media query, then one `@media` section per
/// media query holding the blocks of its rules. The order of blocks and
/// sections is left open: it walks hash maps, so it differs from run to run.
#[verifier::external_body]
fn css_generator_generate(g: &CssGenerator) -> (r: String)
    ensures
        r@.len() == 0 <==> (generator_rules(*g).dom().is_empty() && generator_custom_properties(*g).is_empty()),
        generator_custom_properties(*g).is_empty() ==> rendering_of(generator_rules(*g), r@),
{
    g.generate_css()
}

/// The blocks of the rules under `keys`, in that order.
pub open spec fn blocks(rules: Map<Seq<char>, (Seq<char>, Option<Seq<char>>)>, keys: Seq<Seq<char>>) -> Seq<char>
    decreases keys.len(),
{
    if keys.len() == 0 {
        seq![]
    } else {
        blocks(rules, keys.drop_last()) + rules[keys.last()].0
    }
}

/// The `@media` sections for `groups` of (media query, rule keys), in order.
pub open spec fn media_sections(
    rules: Map<Seq<char>, (Seq<char>, Option<Seq<char>>)>,
    groups: Seq<(Seq<char>, Seq<Seq<char>>)>,
) -> Seq<char>
    decreases groups.len(),
{
    if groups.len() == 0 {
        seq![]
    } else {
        media_sections(rules, groups.drop_last()) + "@media "@ + groups.last().0 + " {\n"@ + blocks(
            rules,
            groups.last().1,
        ) + "}\n\n"@
    }
}

/// `keys` lists each member of `set` once and nothing else.
pub open spec fn lists_exactly(keys: Seq<Seq<char>>, set: Set<Seq<char>>) -> bool {
    keys.no_duplicates() && keys.to_set() == set
}

/// The media queries that some rule has.
pub open spec fn media_queries(rules: Map<Seq<char>, (Seq<char>, Option<Seq<char>>)>) -> Set<Seq<char>> {
    Set::new(|q: Seq<char>| exists|k: Seq<char>| rules.dom().contains(k) && #[trigger] rules[k].1 == Some(q))
}

/// `css` prints `rules`: the blocks of the rules without media query, each
/// once in some order, then for each media query once, in some order, an
/// `@media` section with the blocks of its rules, each once in some order.
pub open spec fn rendering_of(rules: Map<Seq<char>, (Seq<char>, Option<Seq<char>>)>, css: Seq<char>) -> bool {
    exists|base: Seq<Seq<char>>, groups: Seq<(Seq<char>, Seq<Seq<char>>)>|
        {
            &&& lists_exactly(base, rules.dom().filter(|k: Seq<char>| rules[k].1 is None))
            &&& lists_exactly(groups.map_values(|g: (Seq<char>, Seq<Seq<char>>)| g.0), media_queries(rules))
            &&& forall|i: int|
                0 <= i < groups.len() ==> lists_exactly(
                    #[trigger] groups[i].1,
                    rules.dom().filter(|k: Seq<char>| rules[k].1 == Some(groups[i].0)),
                )
            &&& css == blocks(rules, base) + media_sections(rules, groups)
        }
}

/// The rules Tailwind makes for the classes of `classes`.
pub open spec fn rules_for(classes: Set<Seq<char>>) -> Map<Seq<char>, (Seq<char>, Option<Seq<char>>)> {
    Map::new(|c: Seq<char>| classes.contains(c), |c: Seq<char>| tailwind_rule(c))
}

/// `std::str::from_utf8`: the text the bytes encode, when they are valid UTF-8.
#[verifier::external_body]
fn utf8_text(bytes: &[u8]) -> (r: Option<&str>)
    ensures
        r is Some <==> valid_utf8(bytes@),
        r matches Some(s) ==> s@ == decode_utf8(bytes@),
{
    std::str::from_utf8(bytes).ok()
}

pub open spec fn lower_byte(x: u8) -> u8 {
    if 65 <= x <= 90 {
        (x + 32) as u8
    } else {
        x
    }
}

/// `class=` followed by `quote` starts at `i`, letters in any case.
pub open spec fn attr_at(b: Seq<u8>, i: int, quote: u8) -> bool {
    &&& 0 <= i
    &&& i + 7 <= b.len()
    &&& lower_byte(b[i]) == 0x63
    &&& lower_byte(b[i + 1]) == 0x6c
    &&& lower_byte(b[i + 2]) == 0x61
    &&& lower_byte(b[i + 3]) == 0x73
    &&& lower_byte(b[i + 4]) == 0x73
    &&& lower_byte(b[i + 5]) == 0x3d
    &&& lower_byte(b[i + 6]) == lower_byte(quote)
}

/// The first position at or after `from` that holds `quote`, or the length.
pub open spec fn close_at(b: Seq<u8>, from: int, quote: u8) -> int
    decreases b.len() - from,
{
    if from >= b.len() {
        b.len() as int
    } else if b[from] == quote {
        from
    } else {
        close_at(b, from + 1, quote)
    }
}

/// The class tokens of the attribute value `b[start..end]`.
pub open spec fn region_tokens(b: Seq<u8>, start: int, end: int) -> Seq<Seq<char>> {
    if end > start && valid_utf8(b.subrange(start, end)) {
        whitespace_tokens(decode_utf8(b.subrange(start, end)))
    } else {
        seq![]
    }
}

/// The class tokens found scanning `b` from position `i`: at each
/// `class="` (or `class='`) the value up to the closing quote is split at
/// whitespace and scanning resumes after that quote.
pub open spec fn scan_classes(b: Seq<u8>, i: int) -> Seq<Seq<char>>
    decreases b.len() + 1 - i,
{
    if i < 0 || i >= b.len() {
        seq![]
    } else if attr_at(b, i, 0x22) {
        proof {
            lemma_close_at_bounds(b, i + 7, 0x22);
        }
        let e = close_at(b, i + 7, 0x22);
        region_tokens(b, i + 7, e) + scan_classes(b, e + 1)
    } else if attr_at(b, i, 0x27) {
        proof {
            lemma_close_at_bounds(b, i + 7, 0x27);
        }
        let e = close_at(b, i + 7, 0x27);
        region_tokens(b, i + 7, e) + scan_classes(b, e + 1)
    } else {
        scan_classes(b, i + 1)
    }
}

pub proof fn lemma_close_at_bounds(b: Seq<u8>, from: int, quote: u8)
    requires
        0 <= from <= b.len(),
    ensures
        from <= close_at(b, from, quote) <= b.len(),
    decreases b.len() - from,
{
    if from < b.len() && b[from] != quote {
        lemma_close_at_bounds(b, from + 1, quote);
    }
}

/// The class names that the `class` attributes of `content` list.
pub open spec fn class_names(content: Seq<char>) -> Set<Seq<char>> {
    scan_classes(vstd::utf8::encode_utf8(content), 0).to_set()
}

fn lower_u8(x: u8) -> (r: u8)
    ensures
        r == lower_byte(x),
{
    if 65 <= x && x <= 90 {
        x + 32
    } else {
        x
    }
}

fn attr_matches(b: &[u8], i: usize, quote: u8) -> (r: bool)
    ensures
        r == attr_at(b@, i as int, quote),
{
    if i > b.len() || b.len() - i < 7 {
        return false;
    }
    lower_u8(b[i]) == 0x63 && lower_u8(b[i + 1]) == 0x6c && lower_u8(b[i + 2]) == 0x61 && lower_u8(
        b[i + 3],
    ) == 0x73 && lower_u8(b[i + 4]) == 0x73 && lower_u8(b[i + 5]) == 0x3d && lower_u8(b[i + 6])
        == lower_u8(quote)
}

/// Adds `t` to `out` unless `seen`, the set of texts in `out`, has it.
fn add_unique(out: &mut Vec<String>, seen: &mut StringHashSet, t: String)
    requires
        texts(old(out)@).no_duplicates(),
        old(seen)@ == texts(old(out)@).to_set(),
    ensures
        texts(final(out)@).no_duplicates(),
        texts(final(out)@).to_set() == texts(old(out)@).to_set().insert(t@),
        final(seen)@ == texts(final(out)@).to_set(),
{
    if seen.contains(t.as_str()) {
        proof {
            assert(texts(out@).to_set() =~= texts(out@).to_set().insert(t@));
        }
        return;
    }
    proof {
        let old_t = texts(out@);
        assert(texts(out@.push(t)) =~= old_t.push(t@));
        assert(!old_t.contains(t@)) by {
            if old_t.contains(t@) {
                let j = choose|j: int| 0 <= j < old_t.len() && old_t[j] == t@;
                assert(old_t.to_set().contains(old_t[j]));
            }
        }
        old_t.lemma_push_to_set_commute(t@);
        assert(old_t.push(t@).no_duplicates());
    }
    seen.insert(t.clone());
    out.push(t);
}

/// Adds every text of `ts` to `out`, skipping those already there.
fn add_all_unique(out: &mut Vec<String>, seen: &mut StringHashSet, ts: Vec<String>)
    requires
        texts(old(out)@).no_duplicates(),
        old(seen)@ == texts(old(out)@).to_set(),
    ensures
        texts(final(out)@).no_duplicates(),
        texts(final(out)@).to_set() == texts(old(out)@).to_set().union(texts(ts@).to_set()),
        final(seen)@ == texts(final(out)@).to_set(),
{
    let ghost start = texts(out@).to_set();
    let mut i: usize = 0;
    while i < ts.len()
        invariant
            i <= ts.len(),
            texts(out@).no_duplicates(),
            seen@ == texts(out@).to_set(),
            texts(out@).to_set() == start.union(texts(ts@).take(i as int).to_set()),
        decreases ts.len() - i,
    {
        add_unique(out, seen, ts[i].clone());
        proof {
            assert(texts(ts@).take(i + 1) =~= texts(ts@).take(i as int).push(ts@[i as int]@));
            texts(ts@).take(i as int).lemma_push_to_set_commute(ts@[i as int]@);
            assert(texts(out@).to_set() =~= start.union(texts(ts@).take(i + 1).to_set()));
        }
        i = i + 1;
    }
    proof {
        assert(texts(ts@).take(i as int) =~= texts(ts@));
    }
}

/// The whitespace tokens of the attribute value `b[start..end]`.
fn region(b: &[u8], start: usize, end: usize) -> (r: Vec<String>)
    requires
        start <= end <= b@.len(),
    ensures
        texts(r@) == region_tokens(b@, start as int, end as int),
{
    if end > start {
        let part = vstd::slice::slice_subrange(b, start, end);
        match utf8_text(part) {
            Some(s) => {
                proof {
                    assert(part@ =~= b@.subrange(start as int, end as int));
                }
                split_whitespace(s)
            },
            None => {
                let v: Vec<String> = Vec::new();
                proof {
                    assert(part@ =~= b@.subrange(start as int, end as int));
                    assert(texts(v@) =~= Seq::<Seq<char>>::empty());
                }
                v
            },
        }
    } else {
        let v: Vec<String> = Vec::new();
        proof {
            assert(texts(v@) =~= Seq::<Seq<char>>::empty());
        }
        v
    }
}

/// The class names listed in the `class="..."` and `class='...'` attributes of
/// `content` (the attribute name in any letter case), each once.
pub fn extract_classes(content: &str) -> (r: Vec<String>)
    ensures
        texts(r@).no_duplicates(),
        texts(r@).to_set() == class_names(content@),
{
    let b = content.as_bytes();
    let len = b.len();
    let ghost bs = b@;
    let mut out: Vec<String> = Vec::new();
    let mut seen = StringHashSet::new();
    let mut i: usize = 0;
    proof {
        assert(texts(out@) =~= Seq::<Seq<char>>::empty());
        assert(seen@ =~= texts(out@).to_set());
        assert(texts(out@).to_set().union(scan_classes(bs, 0).to_set()) =~= scan_classes(bs, 0).to_set());
    }
    while i < len
        invariant
            bs == b@,
            len == b@.len(),
            bs == content.spec_bytes(),
            texts(out@).no_duplicates(),
            seen@ == texts(out@).to_set(),
            texts(out@).to_set().union(scan_classes(bs, i as int).to_set()) == scan_classes(bs, 0).to_set(),
        decreases len + 1 - i,
    {
        let dq = attr_matches(b, i, 0x22);
        let sq = if dq {
            false
        } else {
            attr_matches(b, i, 0x27)
        };
        if dq || sq {
            let quote: u8 = if dq {
                0x22
            } else {
                0x27
            };
            let start: usize = i + 7;
            let mut j: usize = start;
            while j < len && b[j] != quote
                invariant
                    start <= j <= len,
                    len == b@.len(),
                    close_at(bs, j as int, quote) == close_at(bs, start as int, quote),
                    bs == b@,
                decreases len - j,
            {
                j = j + 1;
            }
            let toks = region(b, start, j);
            let ghost before = texts(out@).to_set();
            add_all_unique(&mut out, &mut seen, toks);
            proof {
                assert(close_at(bs, j as int, quote) == j);
                let rest = scan_classes(bs, j + 1);
                assert(scan_classes(bs, i as int) == region_tokens(bs, start as int, j as int) + rest);
                vstd::seq_lib::seq_to_set_distributes_over_add(
                    region_tokens(bs, start as int, j as int),
                    rest,
                );
                assert(texts(out@).to_set().union(rest.to_set()) =~= before.union(
                    scan_classes(bs, i as int).to_set(),
                ));
            }
            if j >= len {
                proof {
                    assert(scan_classes(bs, j + 1) =~= Seq::<Seq<char>>::empty());
                    assert(texts(out@).to_set().union(scan_classes(bs, len as int).to_set()) =~= texts(
                        out@,
                    ).to_set().union(scan_classes(bs, j + 1).to_set()));
                }
                i = len;
            } else {
                i = j + 1;
            }
        } else {
            i = i + 1;
        }
    }
    proof {
        assert(scan_classes(bs, i as int) =~= Seq::<Seq<char>>::empty());
        assert(texts(out@).to_set().union(Seq::<Seq<char>>::empty().to_set()) =~= texts(out@).to_set());
    }
    out
}


/// The class names found in any of `contents`.
pub open spec fn class_names_of_all(contents: Seq<String>) -> Set<Seq<char>> {
    Set::new(
        |t: Seq<char>| exists|i: int| 0 <= i < contents.len() && #[trigger] class_names(contents[i]@).contains(t),
    )
}

/// The class names used across all `contents`, each once.
pub fn collect_classes(contents: &Vec<String>) -> (r: Vec<String>)
    ensures
        texts(r@).no_duplicates(),
        texts(r@).to_set() == class_names_of_all(contents@),
{
    let mut out: Vec<String> = Vec::new();
    let mut seen = StringHashSet::new();
    let mut i: usize = 0;
    proof {
        assert(texts(out@).to_set() =~= class_names_of_all(contents@.take(0)));
        assert(seen@ =~= texts(out@).to_set());
    }
    while i < contents.len()
        invariant
            i <= contents.len(),
            texts(out@).no_duplicates(),
            seen@ == texts(out@).to_set(),
            texts(out@).to_set() == class_names_of_all(contents@.take(i as int)),
        decreases contents.len() - i,
    {
        let found = extract_classes(contents[i].as_str());
        add_all_unique(&mut out, &mut seen, found);
        proof {
            let pre = contents@.take(i as int);
            let post = contents@.take(i + 1);
            assert forall|t: Seq<char>| class_names_of_all(post).contains(t) <==> (class_names_of_all(
                pre,
            ).contains(t) || class_names(contents@[i as int]@).contains(t)) by {
                if class_names_of_all(post).contains(t) {
                    let j = choose|j: int| 0 <= j < post.len() && #[trigger] class_names(post[j]@).contains(t);
                    if j < i {
                        assert(pre[j] == post[j]);
                    }
                }
                if class_names_of_all(pre).contains(t) {
                    let j = choose|j: int| 0 <= j < pre.len() && #[trigger] class_names(pre[j]@).contains(t);
                    assert(pre[j] == post[j]);
                }
                if class_names(contents@[i as int]@).contains(t) {
                    assert(post[i as int] == contents@[i as int]);
                }
            }
            assert(texts(out@).to_set() =~= class_names_of_all(post));
        }
        i = i + 1;
    }
    proof {
        assert(contents@.take(i as int) =~= contents@);
    }
    out
}

/// The classes of `names` that Tailwind knows.
pub open spec fn accepted(names: Set<Seq<char>>) -> Set<Seq<char>> {
    names.filter(|c: Seq<char>| tailwind_accepts(c))
}

/// A generator fed every class of `classes`, holding the rule Tailwind makes
/// for each class that it knows.
fn generator_for(classes: &Vec<String>) -> (g: CssGenerator)
    ensures
        generator_rules(g) == rules_for(accepted(texts(classes@).to_set())),
        generator_custom_properties(g).is_empty(),
{
    let mut g = css_generator_new();
    let mut i: usize = 0;
    proof {
        assert(accepted(texts(classes@).take(0).to_set()) =~= Set::<Seq<char>>::empty());
        assert(rules_for(accepted(texts(classes@).take(0).to_set())) =~= Map::<
            Seq<char>,
            (Seq<char>, Option<Seq<char>>),
        >::empty());
    }
    while i < classes.len()
        invariant
            i <= classes.len(),
            generator_rules(g) == rules_for(accepted(texts(classes@).take(i as int).to_set())),
            generator_custom_properties(g).is_empty(),
        decreases classes.len() - i,
    {
        let r = css_generator_add_class(&mut g, classes[i].as_str());
        proof {
            let pre = texts(classes@).take(i as int);
            assert(texts(classes@).take(i + 1) =~= pre.push(classes@[i as int]@));
            pre.lemma_push_to_set_commute(classes@[i as int]@);
            assert(accepted(texts(classes@).take(i + 1).to_set()) =~= if tailwind_accepts(
                classes@[i as int]@,
            ) {
                accepted(pre.to_set()).insert(classes@[i as int]@)
            } else {
                accepted(pre.to_set())
            });
            assert(generator_rules(g) =~= rules_for(accepted(texts(classes@).take(i + 1).to_set())));
        }
        i = i + 1;
    }
    proof {
        assert(texts(classes@).take(i as int) =~= texts(classes@));
    }
    g
}

/// Tailwind CSS for the classes that `content` uses. Classes that Tailwind
/// does not know are skipped, so this never fails; the CSS is empty exactly
/// when no class it knows is used.
pub fn compile_source(content: &str) -> (r: Result<String, String>)
    ensures
        r matches Ok(css) && (css@.len() == 0 <==> accepted(class_names(content@)).is_empty()),
        r matches Ok(css) && rendering_of(rules_for(accepted(class_names(content@))), css@),
{
    let classes = extract_classes(content);
    let g = generator_for(&classes);
    Ok(css_generator_generate(&g))
}

/// The message given when a project has no file to scan.
pub open spec fn no_content_message() -> Seq<char> {
    "No content files found"@
}

/// Tailwind CSS for the classes used across the project's files, given their
/// contents: an error when there is no file, else the CSS (classes that
/// Tailwind refuses are skipped).
pub fn compile_contents(contents: &Vec<String>) -> (r: Result<String, String>)
    ensures
        contents@.len() == 0 <==> r is Err,
        r matches Err(e) ==> e@ == no_content_message(),
        r matches Ok(css) ==> (css@.len() == 0 <==> accepted(class_names_of_all(contents@)).is_empty()),
        r matches Ok(css) ==> rendering_of(rules_for(accepted(class_names_of_all(contents@))), css@),
{
    if contents.len() == 0 {
        return Err("No content files found".to_string());
    }
    let classes = collect_classes(contents);
    let g = generator_for(&classes);
    Ok(css_generator_generate(&g))
}

/// The glob patterns of the files a project's classes are taken from.
pub fn content_patterns() -> (r: Vec<String>)
    ensures
        texts(r@) == seq!["src/**/*.rs"@, "src/**/*.html"@, "html/**/*.html"@],
{
    let mut r: Vec<String> = Vec::new();
    r.push("src/**/*.rs".to_string());
    r.push("src/**/*.html".to_string());
    r.push("html/**/*.html".to_string());
    proof {
        assert(texts(r@) =~= seq!["src/**/*.rs"@, "src/**/*.html"@, "html/**/*.html"@]);
    }
    r
}

/// `pattern` as it stands when it starts with `/`, else under `root`.
pub open spec fn rooted_pattern(root: Seq<char>, pattern: Seq<char>) -> Seq<char> {
    if pattern.len() > 0 && pattern[0] == '/' {
        pattern
    } else {
        root + seq!['/'] + pattern
    }
}

/// The glob pattern searched for `pattern` in the project at `root`.
pub fn full_pattern(root: &str, pattern: &str) -> (r: String)
    ensures
        r@ == rooted_pattern(root@, pattern@),
{
    broadcast use vstd::string::group_string_axioms;
    let cs = crate::text::chars_of(pattern);
    if cs.len() > 0 && cs[0] == '/' {
        pattern.to_string()
    } else {
        let mut r = root.to_string();
        r.append("/");
        proof {
            reveal_strlit("/");
        }
        r.append(pattern);
        r
    }
}

/// The UTF-8 encoding of two texts one after the other is the encoding of
/// the first followed by that of the second.
pub proof fn lemma_encode_concat(a: Seq<char>, b: Seq<char>)
    ensures
        vstd::utf8::encode_utf8(a + b) == vstd::utf8::encode_utf8(a) + vstd::utf8::encode_utf8(b),
    decreases a.len(),
{
    if a.len() == 0 {
        assert(a + b =~= b);
        assert(vstd::utf8::encode_utf8(a) =~= Seq::<u8>::empty());
        assert(vstd::utf8::encode_utf8(a) + vstd::utf8::encode_utf8(b) =~= vstd::utf8::encode_utf8(b));
    } else {
        assert((a + b).drop_first() =~= a.drop_first() + b);
        assert((a + b)[0] == a[0]);
        lemma_encode_concat(a.drop_first(), b);
        let h = vstd::utf8::encode_scalar(a[0] as u32);
        assert(h + (vstd::utf8::encode_utf8(a.drop_first()) + vstd::utf8::encode_utf8(b)) =~= (h
            + vstd::utf8::encode_utf8(a.drop_first())) + vstd::utf8::encode_utf8(b));
    }
}

proof fn lemma_multi_byte_high(x: u8)
    by (bit_vector)
    ensures
        (0x80u8 | x) >= 0x80u8,
        (0xC0u8 | x) >= 0x80u8,
        (0xE0u8 | x) >= 0x80u8,
        (0xF0u8 | x) >= 0x80u8,
{
}

proof fn lemma_single_byte_differs(s: u32, t: u32)
    by (bit_vector)
    requires
        s <= 0x7f,
        t <= 0x7f,
        s != t,
    ensures
        (s & 0x7F) as u8 != t as u8,
{
}

/// No byte of the encoding of a text without the ASCII character `q` is the
/// byte of `q`: the bytes of a longer encoding all have the high bit set.
pub proof fn lemma_encode_avoids_ascii(v: Seq<char>, q: char)
    requires
        (q as u32) <= 0x7f,
        forall|i: int| 0 <= i < v.len() ==> v[i] != q,
    ensures
        forall|j: int|
            0 <= j < vstd::utf8::encode_utf8(v).len() ==> #[trigger] vstd::utf8::encode_utf8(v)[j] != (q as u32) as u8,
    decreases v.len(),
{
    if v.len() > 0 {
        let s = v[0] as u32;
        vstd::utf8::char_is_scalar(v[0]);
        vstd::utf8::char_u32_cast(v[0], s);
        vstd::utf8::char_u32_cast(q, q as u32);
        assert(s != q as u32);
        lemma_encode_avoids_ascii(v.drop_first(), q);
        let h = vstd::utf8::encode_scalar(s);
        let t = vstd::utf8::encode_utf8(v.drop_first());
        assert(vstd::utf8::encode_utf8(v) == h + t);
        assert forall|j: int| 0 <= j < h.len() implies #[trigger] h[j] != (q as u32) as u8 by {
            if vstd::utf8::has_width_1_encoding(s) {
                lemma_single_byte_differs(s, q as u32);
            } else {
                lemma_multi_byte_high(((s >> 6) & 0x1F) as u8);
                lemma_multi_byte_high(((s >> 12) & 0x0F) as u8);
                lemma_multi_byte_high(((s >> 18) & 0x7) as u8);
                lemma_multi_byte_high((s & 0x3F) as u8);
                lemma_multi_byte_high(((s >> 6) & 0x3F) as u8);
                lemma_multi_byte_high(((s >> 12) & 0x3F) as u8);
            }
        }
        assert forall|j: int| 0 <= j < vstd::utf8::encode_utf8(v).len() implies #[trigger] vstd::utf8::encode_utf8(
            v,
        )[j] != (q as u32) as u8 by {
            if j >= h.len() {
                assert(vstd::utf8::encode_utf8(v)[j] == t[j - h.len()]);
            } else {
                assert(vstd::utf8::encode_utf8(v)[j] == h[j]);
            }
        }
    }
}

/// Scanning from `from` stops at `end`, the first `quote` byte.
pub proof fn lemma_close_at_run(b: Seq<u8>, from: int, end: int, quote: u8)
    requires
        0 <= from <= end < b.len(),
        b[end] == quote,
        forall|k: int| from <= k < end ==> b[k] != quote,
    ensures
        close_at(b, from, quote) == end,
    decreases end - from,
{
    if from < end {
        lemma_close_at_run(b, from + 1, end, quote);
    }
}

/// A `class` attribute, its name `name` written in any letter case, quoted
/// with `"` or `'`, whose value `v` does not hold that quote, lists exactly
/// the whitespace-separated tokens of `v`, line breaks and all.
pub proof fn law_class_attribute_tokens(name: Seq<char>, q: char, v: Seq<char>)
    requires
        name.len() == 6,
        forall|k: int| 0 <= k < 6 ==> name[k] == "class="@[k] || name[k] == "CLASS="@[k],
        q == '"' || q == '\'',
        forall|i: int| 0 <= i < v.len() ==> v[i] != q,
    ensures
        class_names(name + seq![q] + v + seq![q]) == whitespace_tokens(v).to_set(),
{
    reveal_strlit("class=");
    reveal_strlit("CLASS=");
    let w = name + seq![q];
    assert(forall|k: int| 0 <= k < 6 ==> name[k] == #[trigger] "class="@[k] || name[k] == "CLASS="@[k]);
    assert(name[0] == 'c' || name[0] == 'C');
    assert(name[1] == 'l' || name[1] == 'L');
    assert(name[2] == 'a' || name[2] == 'A');
    assert(name[3] == 's' || name[3] == 'S');
    assert(name[4] == 's' || name[4] == 'S');
    assert(name[5] == '=');
    assert(vstd::utf8::is_ascii_chars(w));
    assert(vstd::utf8::is_ascii_chars(seq![q]));
    vstd::utf8::is_ascii_chars_encode_utf8(w);
    vstd::utf8::is_ascii_chars_encode_utf8(seq![q]);
    lemma_encode_concat(w, v);
    lemma_encode_concat(w + v, seq![q]);
    lemma_encode_avoids_ascii(v, q);
    vstd::utf8::encode_utf8_valid_utf8(v);
    vstd::utf8::encode_utf8_decode_utf8(v);
    let ew = vstd::utf8::encode_utf8(w);
    let e = vstd::utf8::encode_utf8(v);
    let eq = vstd::utf8::encode_utf8(seq![q]);
    let qb: u8 = (q as u32) as u8;
    let b = vstd::utf8::encode_utf8(name + seq![q] + v + seq![q]);
    assert(b == ew + e + eq);
    let n = e.len() as int;
    assert(b.len() == 8 + n);
    assert(lower_byte(b[0]) == 0x63u8 && lower_byte(b[1]) == 0x6cu8 && lower_byte(b[2]) == 0x61u8
        && lower_byte(b[3]) == 0x73u8 && lower_byte(b[4]) == 0x73u8 && b[5] == 0x3du8 && b[6] == qb && b[7
        + n] == qb);
    assert forall|k: int| 7 <= k < 7 + n implies b[k] != qb by {
        assert(b[k] == e[k - 7]);
    }
    lemma_close_at_run(b, 7, 7 + n, qb);
    assert(scan_classes(b, 8 + n) == Seq::<Seq<char>>::empty());
    if n > 0 {
        assert(b.subrange(7, 7 + n) =~= e);
    } else {
        if v.len() > 0 {
            vstd::utf8::char_is_scalar(v[0]);
            assert(e == vstd::utf8::encode_scalar(v[0] as u32) + vstd::utf8::encode_utf8(v.drop_first()));
        }
        assert(v =~= Seq::<char>::empty());
        assert(whitespace_tokens(v) == Seq::<Seq<char>>::empty());
    }
    let toks = region_tokens(b, 7, 7 + n);
    assert(toks == whitespace_tokens(v));
    if q == '"' {
        assert(attr_at(b, 0, 0x22));
    } else {
        assert(!attr_at(b, 0, 0x22));
        assert(attr_at(b, 0, 0x27));
    }
    assert(scan_classes(b, 0) == toks + scan_classes(b, 8 + n));
    assert(toks + Seq::<Seq<char>>::empty() =~= toks);
}

/// The stylesheet of a source text holds a rule for a class exactly when a
/// `class` attribute of the text lists it and Tailwind knows it, whatever
/// the class looks like (variants such as `hover:` included); that rule is
/// the one Tailwind makes for the class.
pub proof fn law_compiled_classes(content: Seq<char>, c: Seq<char>)
    ensures
        rules_for(accepted(class_names(content))).contains_key(c) <==> (class_names(content).contains(c)
            && tailwind_accepts(c)),
        rules_for(accepted(class_names(content))).contains_key(c) ==> rules_for(
            accepted(class_names(content)),
        )[c] == tailwind_rule(c),
{
}

/// The stylesheet of a project holds a rule for a class exactly when some
/// file's `class` attributes list it and Tailwind knows it; that rule is the
/// one Tailwind makes for the class.
pub proof fn law_compiled_project_classes(contents: Seq<String>, c: Seq<char>)
    ensures
        rules_for(accepted(class_names_of_all(contents))).contains_key(c) <==> ((exists|i: int|
            0 <= i < contents.len() && #[trigger] class_names(contents[i]@).contains(c)) && tailwind_accepts(c)),
        rules_for(accepted(class_names_of_all(contents))).contains_key(c) ==> rules_for(
            accepted(class_names_of_all(contents)),
        )[c] == tailwind_rule(c),
{
}

} // verus!
