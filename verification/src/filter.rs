//! The verbosity filter: its directive grammar, its resolution from a raw
//! configuration value, and the record-level decision it induces.
//!
//! A directive string is a nonempty comma-separated list of items; an item is
//! either a bare level name (`info`), which sets the global threshold, or a
//! per-module override of the form `module=level`. A module path is a
//! nonempty run of ASCII letters, digits, `_` and `:`. Any string outside
//! this grammar is rejected as a whole and the default filter (info and
//! above, no overrides) is used instead. When several bare levels occur the
//! last one wins.

use vstd::prelude::*;
use vstd::string::StrSliceExecFns;
use vstd::string::StringExecFns;

use crate::level::{parse_level, spec_parse_level, Level};

verus! {

/// One per-module override: records whose target lies under `module` must
/// reach `level`.
pub struct ModuleDirective {
    pub module: String,
    pub level: Level,
}

/// The resolved filter: an optional global threshold plus per-module
/// overrides, in the order they were written.
pub struct FilterSpec {
    pub default_level: Option<Level>,
    pub modules: Vec<ModuleDirective>,
}

/// One item of a directive string.
pub enum DirectiveItem {
    Global(Level),
    ForModule(Seq<char>, Level),
}

/// Index of the first occurrence of `c` in `s`, or `s.len()` when `c` is
/// absent.
pub open spec fn find_char(s: Seq<char>, c: char) -> int
    decreases s.len(),
{
    if s.len() == 0 {
        0
    } else if s[0] == c {
        0
    } else {
        1 + find_char(s.drop_first(), c)
    }
}

pub proof fn lemma_find_char(s: Seq<char>, c: char)
    ensures
        0 <= find_char(s, c) <= s.len(),
        find_char(s, c) < s.len() ==> s[find_char(s, c)] == c,
        forall|k: int| 0 <= k < find_char(s, c) ==> s[k] != c,
    decreases s.len(),
{
    if s.len() == 0 {
    } else if s[0] == c {
    } else {
        lemma_find_char(s.drop_first(), c);
        assert forall|k: int| 0 <= k < find_char(s, c) implies s[k] != c by {
            if k > 0 {
                assert(s.drop_first()[k - 1] != c);
            }
        }
    }
}

pub proof fn lemma_find_char_is(s: Seq<char>, c: char, i: int)
    requires
        0 <= i <= s.len(),
        forall|k: int| 0 <= k < i ==> s[k] != c,
        i < s.len() ==> s[i] == c,
    ensures
        find_char(s, c) == i,
    decreases s.len(),
{
    if s.len() == 0 {
    } else if s[0] == c {
    } else {
        assert forall|k: int| 0 <= k < i - 1 implies s.drop_first()[k] != c by {
            assert(s[k + 1] != c);
        }
        lemma_find_char_is(s.drop_first(), c, i - 1);
    }
}

/// Characters allowed in a module path: ASCII letters, digits, `_` and `:`.
pub open spec fn is_module_char(c: char) -> bool {
    ||| (97 <= c as u32 && c as u32 <= 122)
    ||| (65 <= c as u32 && c as u32 <= 90)
    ||| (48 <= c as u32 && c as u32 <= 57)
    ||| c == '_'
    ||| c == ':'
}

/// A module path: nonempty, made of module characters only.
pub open spec fn is_module_name(s: Seq<char>) -> bool {
    s.len() > 0 && forall|k: int| 0 <= k < s.len() ==> is_module_char(s[k])
}

/// Parse one comma-separated item.
pub open spec fn parse_item(s: Seq<char>) -> Option<DirectiveItem> {
    let eq = find_char(s, '=');
    if eq == s.len() {
        match spec_parse_level(s) {
            Some(l) => Some(DirectiveItem::Global(l)),
            None => None,
        }
    } else {
        let m = s.take(eq);
        let lv = s.skip(eq + 1);
        if is_module_name(m) {
            match spec_parse_level(lv) {
                Some(l) => Some(DirectiveItem::ForModule(m, l)),
                None => None,
            }
        } else {
            None
        }
    }
}

/// Fold one parsed item into a filter model: a bare level replaces the global
/// threshold, an override is appended.
pub open spec fn apply_item(
    m: (Option<Level>, Seq<(Seq<char>, Level)>),
    it: DirectiveItem,
) -> (Option<Level>, Seq<(Seq<char>, Level)>) {
    match it {
        DirectiveItem::Global(l) => (Some(l), m.1),
        DirectiveItem::ForModule(name, l) => (m.0, m.1.push((name, l))),
    }
}

/// Parse the items of `s` in order, folding them into `acc`; `None` when any
/// item is outside the grammar.
pub open spec fn parse_directives_from(
    s: Seq<char>,
    acc: (Option<Level>, Seq<(Seq<char>, Level)>),
) -> Option<(Option<Level>, Seq<(Seq<char>, Level)>)>
    decreases s.len(),
    via parse_directives_from_decreases
{
    let i = find_char(s, ',');
    match parse_item(s.take(i)) {
        None => None,
        Some(it) => {
            if i == s.len() {
                Some(apply_item(acc, it))
            } else {
                parse_directives_from(s.skip(i + 1), apply_item(acc, it))
            }
        },
    }
}

#[via_fn]
proof fn parse_directives_from_decreases(
    s: Seq<char>,
    acc: (Option<Level>, Seq<(Seq<char>, Level)>),
) {
    lemma_find_char(s, ',');
}

/// The meaning of a whole directive string.
pub open spec fn parse_directives(s: Seq<char>) -> Option<
    (Option<Level>, Seq<(Seq<char>, Level)>),
> {
    parse_directives_from(s, (None, Seq::empty()))
}

/// The model of the filter that an unset or rejected directive yields: info
/// and above, no overrides.
pub open spec fn default_model() -> (Option<Level>, Seq<(Seq<char>, Level)>) {
    (Some(Level::Info), Seq::empty())
}

/// The model of the filter resolved from a raw configuration value.
pub open spec fn resolve_filter_model(raw: Option<Seq<char>>) -> (
    Option<Level>,
    Seq<(Seq<char>, Level)>,
) {
    match raw {
        None => default_model(),
        Some(s) => match parse_directives(s) {
            Some(m) => m,
            None => default_model(),
        },
    }
}

/// The model of a list of per-module overrides.
pub open spec fn modules_model(v: Seq<ModuleDirective>) -> Seq<(Seq<char>, Level)> {
    v.map_values(|d: ModuleDirective| (d.module@, d.level))
}

impl FilterSpec {
    /// The mathematical model of this filter.
    pub open spec fn model(self) -> (Option<Level>, Seq<(Seq<char>, Level)>) {
        (self.default_level, modules_model(self.modules@))
    }

    /// The filter that an unset or rejected directive yields.
    pub fn info_default() -> (r: FilterSpec)
        ensures
            r.model() == default_model(),
    {
        let r = FilterSpec { default_level: Some(Level::Info), modules: Vec::new() };
        proof {
            assert(r.model().1 =~= default_model().1);
        }
        r
    }
}

/// The default directive string means exactly the default filter model.
pub proof fn lemma_info_directive_means_default()
    ensures
        parse_directives("info"@) == Some(default_model()),
{
    reveal_strlit("info");
    reveal_strlit("trace");
    reveal_strlit("debug");
    let s = "info"@;
    assert(s.len() == 4);
    lemma_find_char_is(s, ',', 4);
    lemma_find_char_is(s, '=', 4);
    assert(s.take(4) =~= s);
    assert(crate::level::eq_ignore_case(s, s));
    assert(s.map_values(|c: char| crate::level::lower_char(c)).len() == 4);
    assert("trace"@.map_values(|c: char| crate::level::lower_char(c)).len() == 5);
    assert("debug"@.map_values(|c: char| crate::level::lower_char(c)).len() == 5);
    assert(spec_parse_level(s) == Some(Level::Info));
    assert(parse_item(s) == Some(DirectiveItem::Global(Level::Info)));
    assert(parse_directives(s) == Some(
        apply_item((None, Seq::<(Seq<char>, Level)>::empty()), DirectiveItem::Global(Level::Info)),
    ));
}

/// A per-module override applies to a record whose target is the module path
/// itself or lies under it, one `::` segment or more below.
pub open spec fn matches_target(module: Seq<char>, target: Seq<char>) -> bool {
    ||| target == module
    ||| (target.len() >= module.len() + 2 && target.take(module.len() as int) == module
        && target[module.len() as int] == ':' && target[module.len() as int + 1] == ':')
}

/// The override that decides a target: among the matching ones, the longest
/// module path, and of equally long ones the one written last.
pub open spec fn best_match(mods: Seq<(Seq<char>, Level)>, target: Seq<char>) -> Option<
    (Seq<char>, Level),
>
    decreases mods.len(),
{
    if mods.len() == 0 {
        None
    } else {
        let prev = best_match(mods.drop_last(), target);
        let last = mods.last();
        let wins = matches_target(last.0, target) && match prev {
            None => true,
            Some(p) => last.0.len() >= p.0.len(),
        };
        if wins {
            Some(last)
        } else {
            prev
        }
    }
}

/// Whether a record at `level` with target `target` passes the filter: the
/// deciding override's level if one matches, else the global threshold, else
/// nothing passes.
pub open spec fn spec_enabled(
    m: (Option<Level>, Seq<(Seq<char>, Level)>),
    target: Seq<char>,
    level: Level,
) -> bool {
    match best_match(m.1, target) {
        Some(d) => level.rank() >= d.1.rank(),
        None => match m.0 {
            Some(dl) => level.rank() >= dl.rank(),
            None => false,
        },
    }
}

/// With the verbosity directive unset, exactly the records at info level and
/// above pass the filter, whatever their target.
pub proof fn lemma_unset_filter_is_info_default(target: Seq<char>, level: Level)
    ensures
        spec_enabled(resolve_filter_model(None), target, level) <==> level.rank()
            >= Level::Info.rank(),
{
}

/// With a verbosity directive outside the grammar, the same default holds.
pub proof fn lemma_rejected_filter_is_info_default(raw: Seq<char>, target: Seq<char>, level: Level)
    requires
        parse_directives(raw) is None,
    ensures
        spec_enabled(resolve_filter_model(Some(raw)), target, level) <==> level.rank()
            >= Level::Info.rank(),
{
}

/// Executable test of `matches_target`.
fn matches_target_exec(module: &str, target: &str) -> (r: bool)
    ensures
        r == matches_target(module@, target@),
{
    let ml = module.unicode_len();
    let tl = target.unicode_len();
    if ml == tl {
        let r = str_eq(module, target);
        proof {
            if module@ != target@ {
                assert(!(target@.len() >= module@.len() + 2));
            }
        }
        return r;
    }
    if tl < ml || tl - ml < 2 {
        proof {
            assert(!(target@.len() >= module@.len() + 2));
        }
        return false;
    }
    let mut i: usize = 0;
    while i < ml
        invariant
            i <= ml,
            ml == module@.len(),
            tl == target@.len(),
            tl >= ml + 2,
            forall|k: int| 0 <= k < i ==> target@[k] == module@[k],
        decreases ml - i,
    {
        if target.get_char(i) != module.get_char(i) {
            proof {
                assert(target@.take(ml as int)[i as int] != module@[i as int]);
            }
            return false;
        }
        i += 1;
    }
    proof {
        assert(target@.take(ml as int) =~= module@);
    }
    target.get_char(ml) == ':' && target.get_char(ml + 1) == ':'
}

/// Executable equality of two strings.
fn str_eq(a: &str, b: &str) -> (r: bool)
    ensures
        r == (a@ == b@),
{
    let n = a.unicode_len();
    if n != b.unicode_len() {
        return false;
    }
    let mut i: usize = 0;
    while i < n
        invariant
            i <= n,
            n == a@.len(),
            n == b@.len(),
            forall|k: int| 0 <= k < i ==> a@[k] == b@[k],
        decreases n - i,
    {
        if a.get_char(i) != b.get_char(i) {
            return false;
        }
        i += 1;
    }
    proof {
        assert(a@ =~= b@);
    }
    true
}

impl FilterSpec {
    /// Whether a record at `level` with target `target` passes this filter.
    pub fn enabled(&self, target: &str, level: Level) -> (r: bool)
        ensures
            r == spec_enabled(self.model(), target@, level),
    {
        let mut best_len: usize = 0;
        let mut best_level: Option<Level> = None;
        let mut j: usize = 0;
        proof {
            assert(modules_model(self.modules@).take(0) =~= Seq::<(Seq<char>, Level)>::empty());
        }
        while j < self.modules.len()
            invariant
                j <= self.modules@.len(),
                match best_match(modules_model(self.modules@).take(j as int), target@) {
                    None => best_level is None,
                    Some(d) => best_level == Some(d.1) && best_len == d.0.len(),
                },
            decreases self.modules@.len() - j,
        {
            let d = &self.modules[j];
            let ghost prefix = modules_model(self.modules@).take(j as int);
            if matches_target_exec(d.module.as_str(), target) {
                let ml = d.module.unicode_len();
                let take_it = match best_level {
                    None => true,
                    Some(_) => ml >= best_len,
                };
                if take_it {
                    best_len = ml;
                    best_level = Some(d.level);
                }
            }
            proof {
                let next = modules_model(self.modules@).take(j + 1);
                assert(next.drop_last() =~= prefix);
                assert(next.last() == (self.modules@[j as int].module@, self.modules@[j as int].level));
            }
            j += 1;
        }
        proof {
            assert(modules_model(self.modules@).take(self.modules@.len() as int) =~= modules_model(
                self.modules@,
            ));
        }
        match best_level {
            Some(min) => level.passes(min),
            None => match self.default_level {
                Some(dl) => level.passes(dl),
                None => false,
            },
        }
    }
}

/// One successful unfolding of `parse_directives_from` at a field boundary.
proof fn lemma_step(
    s: Seq<char>,
    pos: int,
    comma: int,
    acc: (Option<Level>, Seq<(Seq<char>, Level)>),
    acc2: (Option<Level>, Seq<(Seq<char>, Level)>),
    item: DirectiveItem,
)
    requires
        0 <= pos <= comma <= s.len(),
        find_char(s.skip(pos), ',') == comma - pos,
        parse_item(s.skip(pos).take(comma - pos)) == Some(item),
        acc2 == apply_item(acc, item),
    ensures
        comma == s.len() ==> parse_directives_from(s.skip(pos), acc) == Some(acc2),
        comma < s.len() ==> parse_directives_from(s.skip(pos), acc) == parse_directives_from(
            s.skip(comma + 1),
            acc2,
        ),
{
    if comma < s.len() {
        assert(s.skip(pos).skip(comma - pos + 1) =~= s.skip(comma + 1));
    }
}

/// One failing unfolding of `parse_directives_from` at a field boundary.
proof fn lemma_step_none(
    s: Seq<char>,
    pos: int,
    comma: int,
    acc: (Option<Level>, Seq<(Seq<char>, Level)>),
)
    requires
        0 <= pos <= comma <= s.len(),
        find_char(s.skip(pos), ',') == comma - pos,
        parse_item(s.skip(pos).take(comma - pos)) is None,
    ensures
        parse_directives_from(s.skip(pos), acc) is None,
{
}

/// Index of the first occurrence of `c` at or after `from`, or the string's
/// length when `c` does not occur there.
fn find_in_str(s: &str, from: usize, c: char) -> (r: usize)
    requires
        from <= s@.len(),
    ensures
        from <= r <= s@.len(),
        r - from == find_char(s@.skip(from as int), c),
        r < s@.len() ==> s@[r as int] == c,
        forall|k: int| from <= k < r ==> s@[k] != c,
{
    let n = s.unicode_len();
    let mut j: usize = from;
    while j < n
        invariant
            from <= j <= n,
            n == s@.len(),
            forall|k: int| from <= k < j ==> s@[k] != c,
        decreases n - j,
    {
        if s.get_char(j) == c {
            proof {
                assert forall|k: int| 0 <= k < j - from implies s@.skip(from as int)[k] != c by {
                    assert(s@[k + from] != c);
                }
                lemma_find_char_is(s@.skip(from as int), c, j - from);
            }
            return j;
        }
        j += 1;
    }
    proof {
        assert forall|k: int| 0 <= k < n - from implies s@.skip(from as int)[k] != c by {
            assert(s@[k + from] != c);
        }
        lemma_find_char_is(s@.skip(from as int), c, n - from);
    }
    n
}

/// Executable test of `is_module_char`.
fn is_module_char_exec(c: char) -> (r: bool)
    ensures
        r == is_module_char(c),
{
    let u = c as u32;
    (97 <= u && u <= 122) || (65 <= u && u <= 90) || (48 <= u && u <= 57) || c == '_' || c == ':'
}

/// Executable test of `is_module_name`.
fn is_module_name_exec(s: &str) -> (r: bool)
    ensures
        r == is_module_name(s@),
{
    let n = s.unicode_len();
    if n == 0 {
        return false;
    }
    let mut i: usize = 0;
    while i < n
        invariant
            i <= n,
            n == s@.len(),
            forall|k: int| 0 <= k < i ==> is_module_char(s@[k]),
        decreases n - i,
    {
        if !is_module_char_exec(s.get_char(i)) {
            return false;
        }
        i += 1;
    }
    true
}

/// Parse a whole directive string; `None` exactly when it falls outside the
/// grammar.
pub fn parse_filter(s: &str) -> (r: Option<FilterSpec>)
    ensures
        match r {
            Some(f) => parse_directives(s@) == Some(f.model()),
            None => parse_directives(s@) is None,
        },
{
    let n = s.unicode_len();
    let mut default_level: Option<Level> = None;
    let mut modules: Vec<ModuleDirective> = Vec::new();
    let mut pos: usize = 0;
    proof {
        assert(s@.skip(0) =~= s@);
        assert(modules_model(modules@) =~= Seq::<(Seq<char>, Level)>::empty());
    }
    loop
        invariant
            pos <= n,
            n == s@.len(),
            parse_directives(s@) == parse_directives_from(
                s@.skip(pos as int),
                (default_level, modules_model(modules@)),
            ),
        decreases n - pos,
    {
        let ghost acc = (default_level, modules_model(modules@));
        let comma = find_in_str(s, pos, ',');
        let field = s.substring_char(pos, comma);
        proof {
            assert(field@ =~= s@.skip(pos as int).take(comma - pos));
        }
        let eq = find_in_str(field, 0, '=');
        let flen = field.unicode_len();
        proof {
            assert(field@.skip(0) =~= field@);
        }
        if eq == flen {
            match parse_level(field) {
                Some(l) => {
                    default_level = Some(l);
                    proof {
                        let item = DirectiveItem::Global(l);
                        assert(parse_item(field@) == Some(item));
                        assert((default_level, modules_model(modules@)) == apply_item(acc, item));
                        lemma_step(
                            s@,
                            pos as int,
                            comma as int,
                            acc,
                            (default_level, modules_model(modules@)),
                            item,
                        );
                    }
                },
                None => {
                    proof {
                        assert(parse_item(field@) is None);
                        lemma_step_none(s@, pos as int, comma as int, acc);
                    }
                    return None;
                },
            }
        } else {
            let module = field.substring_char(0, eq);
            let lvstr = field.substring_char(eq + 1, flen);
            proof {
                assert(module@ =~= field@.take(eq as int));
                assert(lvstr@ =~= field@.skip(eq + 1));
            }
            if !is_module_name_exec(module) {
                proof {
                    assert(parse_item(field@) is None);
                    lemma_step_none(s@, pos as int, comma as int, acc);
                }
                return None;
            }
            match parse_level(lvstr) {
                Some(l) => {
                    let ghost module_view = module@;
                    let d = ModuleDirective { module: String::from_str(module), level: l };
                    let ghost old_modules = modules@;
                    modules.push(d);
                    proof {
                        let item = DirectiveItem::ForModule(module_view, l);
                        assert(parse_item(field@) == Some(item));
                        assert(modules_model(modules@) =~= modules_model(old_modules).push(
                            (module_view, l),
                        ));
                        assert((default_level, modules_model(modules@)) == apply_item(acc, item));
                        lemma_step(
                            s@,
                            pos as int,
                            comma as int,
                            acc,
                            (default_level, modules_model(modules@)),
                            item,
                        );
                    }
                },
                None => {
                    proof {
                        assert(parse_item(field@) is None);
                        lemma_step_none(s@, pos as int, comma as int, acc);
                    }
                    return None;
                },
            }
        }
        if comma == n {
            return Some(FilterSpec { default_level, modules });
        }
        pos = comma + 1;
    }
}

} // verus!
