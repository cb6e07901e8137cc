//! CSS declarations and the ordered declaration sets that the cascade merges.

use vstd::prelude::*;

use crate::text::same_text;

verus! {

/// One declaration as the contracts see it.
pub struct Decl {
    pub property: Seq<char>,
    pub value: Seq<char>,
    pub important: bool,
    pub shorthands: Seq<Seq<char>>,
}

/// A property with its value, possibly flagged `!important`.
#[derive(Clone, Debug)]
pub struct Declaration {
    /// The property's name, such as `color`.
    pub property: String,
    /// The value as CSS text, such as `red` or `10px`.
    pub value: String,
    /// Whether the declaration carries `!important`.
    pub important: bool,
    /// The shorthand properties that `property` is a longhand of, such as `margin` for
    /// `margin-top`; empty for a property that belongs to no shorthand.
    pub shorthands: Vec<String>,
}

impl View for Declaration {
    type V = Decl;

    open spec fn view(&self) -> Decl {
        Decl {
            property: self.property@,
            value: self.value@,
            important: self.important,
            shorthands: string_views(self.shorthands@),
        }
    }
}

/// An ordered set of declarations, at most one for each property once well formed.
#[derive(Clone, Debug)]
pub struct DeclarationBlock {
    pub declarations: Vec<Declaration>,
}

/// The views of a sequence of declarations.
pub open spec fn decl_views(s: Seq<Declaration>) -> Seq<Decl> {
    s.map_values(|d: Declaration| d@)
}

/// The views of a sequence of strings.
pub open spec fn string_views(s: Seq<String>) -> Seq<Seq<char>> {
    s.map_values(|x: String| x@)
}

/// The views of a sequence of string pairs.
pub open spec fn pair_views(s: Seq<(String, String)>) -> Seq<(Seq<char>, Seq<char>)> {
    s.map_values(|p: (String, String)| (p.0@, p.1@))
}

impl View for DeclarationBlock {
    type V = Seq<Decl>;

    open spec fn view(&self) -> Seq<Decl> {
        decl_views(self.declarations@)
    }
}

/// No property appears twice.
pub open spec fn unique_properties(s: Seq<Decl>) -> bool {
    forall|i: int, j: int|
        0 <= i < s.len() && 0 <= j < s.len() && i != j ==> #[trigger] s[i].property
            != #[trigger] s[j].property
}

/// `i` is the first position of property `p` in `s`.
pub open spec fn is_first_position(s: Seq<Decl>, p: Seq<char>, i: int) -> bool {
    &&& 0 <= i < s.len()
    &&& s[i].property == p
    &&& forall|k: int| 0 <= k < i ==> #[trigger] s[k].property != p
}

/// The first position of property `p` in `s`, or -1 where `s` has none.
pub open spec fn position_of(s: Seq<Decl>, p: Seq<char>) -> int
    decreases s.len(),
{
    if s.len() == 0 {
        -1
    } else if position_of(s.drop_last(), p) >= 0 {
        position_of(s.drop_last(), p)
    } else if s.last().property == p {
        s.len() - 1
    } else {
        -1
    }
}

/// The declaration that `s` holds for property `p`.
pub open spec fn lookup(s: Seq<Decl>, p: Seq<char>) -> Option<Decl> {
    let i = position_of(s, p);
    if i < 0 {
        None
    } else {
        Some(s[i])
    }
}

/// Pushing `d`: it replaces the value held for its property, unless that one is important
/// and `d` is not, in which case `d` is dropped; a new property goes to the end.
pub open spec fn push_decl(s: Seq<Decl>, d: Decl) -> Seq<Decl> {
    let i = position_of(s, d.property);
    if i < 0 {
        s.push(d)
    } else if s[i].important && !d.important {
        s
    } else {
        s.update(i, d)
    }
}

/// Pushing each of `ds` in turn.
pub open spec fn extend_decls(s: Seq<Decl>, ds: Seq<Decl>) -> Seq<Decl>
    decreases ds.len(),
{
    if ds.len() == 0 {
        s
    } else {
        push_decl(extend_decls(s, ds.drop_last()), ds.last())
    }
}

/// Every declaration with its important flag cleared, values and order kept.
pub open spec fn without_importance(s: Seq<Decl>) -> Seq<Decl> {
    s.map_values(|d: Decl| Decl { important: false, ..d })
}

/// `d` is excluded by `excluded`: its own property, or a shorthand it belongs to, is listed.
pub open spec fn is_excluded(d: Decl, excluded: Seq<Seq<char>>) -> bool {
    excluded.contains(d.property) || exists|k: int|
        0 <= k < d.shorthands.len() && excluded.contains(#[trigger] d.shorthands[k])
}

/// The declarations of `s` that `excluded` does not exclude, in order.
pub open spec fn without_properties(s: Seq<Decl>, excluded: Seq<Seq<char>>) -> Seq<Decl>
    decreases s.len(),
{
    if s.len() == 0 {
        s
    } else if is_excluded(s.last(), excluded) {
        without_properties(s.drop_last(), excluded)
    } else {
        without_properties(s.drop_last(), excluded).push(s.last())
    }
}

/// The text of one declaration: `name: value;` or `name: value !important;`.
pub open spec fn decl_css(d: Decl) -> Seq<char> {
    d.property + seq![':', ' '] + d.value + (if d.important {
        seq![' ', '!', 'i', 'm', 'p', 'o', 'r', 't', 'a', 'n', 't']
    } else {
        Seq::<char>::empty()
    }) + seq![';']
}

/// The text of a declaration list: the declarations' texts separated by single spaces.
pub open spec fn block_css(s: Seq<Decl>) -> Seq<char>
    decreases s.len(),
{
    if s.len() == 0 {
        Seq::<char>::empty()
    } else if s.len() == 1 {
        decl_css(s[0])
    } else {
        block_css(s.drop_last()) + seq![' '] + decl_css(s.last())
    }
}

/// `position_of` names the first position of `p`, or -1 exactly where `p` is absent.
pub proof fn lemma_position_of(s: Seq<Decl>, p: Seq<char>)
    ensures
        position_of(s, p) < 0 <==> forall|k: int| 0 <= k < s.len() ==> #[trigger] s[k].property != p,
        position_of(s, p) >= 0 ==> is_first_position(s, p, position_of(s, p)),
    decreases s.len(),
{
    if s.len() > 0 {
        lemma_position_of(s.drop_last(), p);
        assert forall|k: int| 0 <= k < s.len() - 1 implies #[trigger] s[k] == s.drop_last()[k] by {}
    }
}

/// A first position of `p` is the one `position_of` names.
pub proof fn lemma_first_position(s: Seq<Decl>, p: Seq<char>, i: int)
    requires
        is_first_position(s, p, i),
    ensures
        position_of(s, p) == i,
{
    lemma_position_of(s, p);
    let c = position_of(s, p);
    if c < 0 {
        assert(s[i].property != p);
    } else if c < i {
        assert(s[c].property != p);
    } else if c > i {
        assert(s[i].property != p);
    }
}

/// Pushing keeps properties unique.
pub proof fn lemma_push_unique(s: Seq<Decl>, d: Decl)
    requires
        unique_properties(s),
    ensures
        unique_properties(push_decl(s, d)),
{
    lemma_position_of(s, d.property);
    let i = position_of(s, d.property);
    let r = push_decl(s, d);
    assert forall|a: int, b: int| 0 <= a < r.len() && 0 <= b < r.len() && a != b implies #[trigger] r[a].property
        != #[trigger] r[b].property by {
        if i < 0 {
            if a == s.len() as int {
                assert(s[b].property != d.property);
            } else if b == s.len() as int {
                assert(s[a].property != d.property);
            }
        }
    }
}

/// Extending keeps properties unique.
pub proof fn lemma_extend_unique(s: Seq<Decl>, ds: Seq<Decl>)
    requires
        unique_properties(s),
    ensures
        unique_properties(extend_decls(s, ds)),
    decreases ds.len(),
{
    if ds.len() > 0 {
        lemma_extend_unique(s, ds.drop_last());
        lemma_push_unique(extend_decls(s, ds.drop_last()), ds.last());
    }
}

impl Declaration {
    /// A copy of this declaration.
    pub fn duplicate(&self) -> (r: Declaration)
        ensures
            r@ == self@,
    {
        Declaration {
            property: self.property.clone(),
            value: self.value.clone(),
            important: self.important,
            shorthands: copy_strings(&self.shorthands),
        }
    }

    /// Whether a name in `properties` excludes this declaration.
    pub fn is_excluded_by(&self, properties: &Vec<String>) -> (r: bool)
        ensures
            r == is_excluded(self@, string_views(properties@)),
    {
        if contains_string(properties, &self.property) {
            return true;
        }
        let ghost excluded = string_views(properties@);
        let n = self.shorthands.len();
        let mut k: usize = 0;
        while k < n
            invariant
                n == self@.shorthands.len(),
                k <= n,
                excluded == string_views(properties@),
                !excluded.contains(self@.property),
                forall|j: int| 0 <= j < k ==> !excluded.contains(#[trigger] self@.shorthands[j]),
            decreases n - k,
        {
            assert(self@.shorthands[k as int] == self.shorthands@[k as int]@);
            if contains_string(properties, &self.shorthands[k]) {
                return true;
            }
            k += 1;
        }
        false
    }

    /// The declaration's CSS text, `name: value;` with ` !important` before the `;` when flagged.
    pub fn to_css(&self) -> (r: String)
        ensures
            r@ == decl_css(self@),
    {
        let mut r = String::new();
        r.append(self.property.as_str());
        proof {
            reveal_strlit(": ");
            reveal_strlit(" !important");
            reveal_strlit(";");
        }
        r.append(": ");
        r.append(self.value.as_str());
        if self.important {
            r.append(" !important");
        }
        r.append(";");
        assert(r@ =~= decl_css(self@));
        r
    }
}

impl DeclarationBlock {
    /// The empty set.
    pub fn new() -> (r: DeclarationBlock)
        ensures
            r@ == Seq::<Decl>::empty(),
    {
        let r = DeclarationBlock { declarations: Vec::new() };
        assert(r@ =~= Seq::<Decl>::empty());
        r
    }

    /// Whether no property is held twice.
    pub open spec fn wf(&self) -> bool {
        unique_properties(self@)
    }

    /// A copy of this set.
    pub fn duplicate(&self) -> (r: DeclarationBlock)
        ensures
            r@ == self@,
    {
        let mut v: Vec<Declaration> = Vec::new();
        let n = self.declarations.len();
        let mut i: usize = 0;
        while i < n
            invariant
                n == self.declarations@.len(),
                i <= n,
                decl_views(v@) == decl_views(self.declarations@.subrange(0, i as int)),
            decreases n - i,
        {
            let ghost before = v@;
            let d = self.declarations[i].duplicate();
            v.push(d);
            assert(decl_views(v@) =~= decl_views(before).push(d@));
            assert(decl_views(v@) =~= decl_views(self.declarations@.subrange(0, i + 1)));
            i += 1;
        }
        assert(self.declarations@.subrange(0, n as int) =~= self.declarations@);
        DeclarationBlock { declarations: v }
    }

    /// The position of the declaration held for `property`.
    pub fn position(&self, property: &str) -> (r: Option<usize>)
        ensures
            match r {
                None => position_of(self@, property@) < 0,
                Some(i) => i < self@.len() && i as int == position_of(self@, property@),
            },
    {
        let n = self.declarations.len();
        let mut i: usize = 0;
        while i < n
            invariant
                n == self@.len(),
                i <= n,
                forall|k: int| 0 <= k < i ==> #[trigger] self@[k].property != property@,
            decreases n - i,
        {
            assert(self@[i as int] == self.declarations@[i as int]@);
            if same_text(self.declarations[i].property.as_str(), property) {
                proof {
                    lemma_first_position(self@, property@, i as int);
                }
                return Some(i);
            }
            i += 1;
        }
        proof {
            lemma_position_of(self@, property@);
        }
        None
    }

    /// The declaration held for `property`.
    pub fn get(&self, property: &str) -> (r: Option<&Declaration>)
        ensures
            match r {
                None => lookup(self@, property@) is None,
                Some(d) => lookup(self@, property@) == Some(d@),
            },
    {
        match self.position(property) {
            None => None,
            Some(i) => Some(&self.declarations[i]),
        }
    }

    /// Pushes `d` as `push_decl` says: later wins, but an important value is kept against a
    /// later value that is not important.
    pub fn push(&mut self, d: Declaration)
        ensures
            final(self)@ == push_decl(old(self)@, d@),
            old(self).wf() ==> final(self).wf(),
    {
        proof {
            if old(self).wf() {
                lemma_push_unique(old(self)@, d@);
            }
        }
        match self.position(d.property.as_str()) {
            None => {
                self.declarations.push(d);
                assert(self@ =~= push_decl(old(self)@, d@));
            },
            Some(i) => {
                assert(self@[i as int] == self.declarations@[i as int]@);
                if !self.declarations[i].important || d.important {
                    self.declarations.set(i, d);
                    assert(self@ =~= push_decl(old(self)@, d@));
                }
            },
        }
    }

    /// Pushes every declaration of `block`, in its order.
    pub fn extend_from_block(&mut self, block: &DeclarationBlock)
        ensures
            final(self)@ == extend_decls(old(self)@, block@),
            old(self).wf() ==> final(self).wf(),
    {
        let n = block.declarations.len();
        let mut i: usize = 0;
        while i < n
            invariant
                n == block@.len(),
                i <= n,
                self@ == extend_decls(old(self)@, block@.subrange(0, i as int)),
                old(self).wf() ==> self.wf(),
            decreases n - i,
        {
            self.push(block.declarations[i].duplicate());
            assert(block@.subrange(0, i + 1).drop_last() =~= block@.subrange(0, i as int));
            i += 1;
        }
        assert(block@.subrange(0, n as int) =~= block@);
    }

    /// Clears the important flag of every declaration, keeping values and order.
    pub fn remove_importance(&mut self)
        ensures
            final(self)@ == without_importance(old(self)@),
    {
        let n = self.declarations.len();
        let mut i: usize = 0;
        while i < n
            invariant
                n == self@.len(),
                i <= n,
                old(self)@.len() == n,
                forall|k: int| 0 <= k < i ==> #[trigger] self.declarations@[k]@ == without_importance(old(self)@)[k],
                forall|k: int| i <= k < n ==> #[trigger] self.declarations@[k] == old(self).declarations@[k],
            decreases n - i,
        {
            let d = Declaration {
                property: self.declarations[i].property.clone(),
                value: self.declarations[i].value.clone(),
                important: false,
                shorthands: copy_strings(&self.declarations[i].shorthands),
            };
            self.declarations.set(i, d);
            i += 1;
        }
        assert(self@ =~= without_importance(old(self)@));
    }

    /// Drops every declaration whose property is listed in `properties`, or that is a longhand
    /// of a shorthand listed there (so `margin` drops `margin-top`); a name that no declaration
    /// has changes nothing.
    pub fn remove_excluded_properties(&mut self, properties: &Vec<String>)
        ensures
            final(self)@ == without_properties(
                old(self)@,
                string_views(properties@),
            ),
    {
        let ghost excluded = string_views(properties@);
        let mut kept: Vec<Declaration> = Vec::new();
        let n = self.declarations.len();
        let mut i: usize = 0;
        while i < n
            invariant
                n == self@.len(),
                i <= n,
                excluded == string_views(properties@),
                decl_views(kept@) == without_properties(
                    self@.subrange(0, i as int),
                    excluded,
                ),
            decreases n - i,
        {
            let listed = self.declarations[i].is_excluded_by(properties);
            assert(self@[i as int] == self.declarations@[i as int]@);
            assert(self@.subrange(0, i + 1).drop_last() =~= self@.subrange(0, i as int));
            assert(self@.subrange(0, i + 1).last() == self@[i as int]);
            if !listed {
                kept.push(self.declarations[i].duplicate());
                assert(decl_views(kept@) =~= without_properties(
                    self@.subrange(0, i as int),
                    excluded,
                ).push(self@[i as int]));
            }
            i += 1;
        }
        assert(self@.subrange(0, n as int) =~= self@);
        self.declarations = kept;
    }

    /// The set's CSS text, as `block_css` gives it.
    pub fn to_css(&self) -> (r: String)
        ensures
            r@ == block_css(self@),
    {
        let mut r = String::new();
        let n = self.declarations.len();
        let mut i: usize = 0;
        while i < n
            invariant
                n == self@.len(),
                i <= n,
                r@ == block_css(self@.subrange(0, i as int)),
            decreases n - i,
        {
            proof {
                reveal_strlit(" ");
            }
            if i > 0 {
                r.append(" ");
            }
            let t = self.declarations[i].to_css();
            assert(self@[i as int] == self.declarations@[i as int]@);
            r.append(t.as_str());
            assert(self@.subrange(0, i + 1).drop_last() =~= self@.subrange(0, i as int));
            assert(self@.subrange(0, i + 1).last() == self@[i as int]);
            assert(r@ =~= block_css(self@.subrange(0, i + 1)));
            i += 1;
        }
        assert(self@.subrange(0, n as int) =~= self@);
        r
    }
}

/// A copy of each string of `v`.
pub fn copy_strings(v: &Vec<String>) -> (r: Vec<String>)
    ensures
        string_views(r@) == string_views(v@),
{
    let mut r: Vec<String> = Vec::new();
    let n = v.len();
    let mut i: usize = 0;
    while i < n
        invariant
            n == v@.len(),
            i <= n,
            string_views(r@) == string_views(v@.subrange(0, i as int)),
        decreases n - i,
    {
        let ghost before = r@;
        let c = v[i].clone();
        r.push(c);
        assert(string_views(r@) =~= string_views(before).push(c@));
        assert(string_views(r@) =~= string_views(v@.subrange(0, i + 1)));
        i += 1;
    }
    assert(v@.subrange(0, n as int) =~= v@);
    r
}

/// Whether `list` holds a string equal to `s`.
pub fn contains_string(list: &Vec<String>, s: &String) -> (r: bool)
    ensures
        r == string_views(list@).contains(s@),
{
    let ghost m = string_views(list@);
    let n = list.len();
    let mut i: usize = 0;
    while i < n
        invariant
            n == list@.len(),
            m.len() == n,
            i <= n,
            forall|k: int| 0 <= k < n ==> #[trigger] m[k] == list@[k]@,
            forall|k: int| 0 <= k < i ==> m[k] != s@,
        decreases n - i,
    {
        if list[i] == *s {
            assert(m[i as int] == s@);
            assert(string_views(list@)[i as int] == s@);
            return true;
        }
        i += 1;
    }
    false
}

} // verus!
