//! Numbering and forwarding plan for a module error enum.
//!
//! Every variant of an error enum surfaces on the wire as a pair of module
//! name and code. A variant either carries a code of its own (written out,
//! or assigned in sequence), or forwards both to the one field that holds
//! its source error. At most one variant may re-raise a dispatcher abort.

use vstd::prelude::*;

verus! {

/// Name of the constant that holds the module name when the enum names none.
pub const DEFAULT_MODULE_NAME: &'static str = "MODULE_NAME";

/// A field of an error variant.
pub struct ErrorField {
    /// The field's name, `None` in a tuple variant.
    pub ident: Option<String>,
    /// Whether the field is marked as the variant's source error.
    pub has_attrs: bool,
}

/// A variant of an error enum, with the options given on it.
pub struct ErrorVariant {
    pub ident: String,
    pub fields: Vec<ErrorField>,
    /// The code written on the variant. It overrides sequential numbering.
    pub code: Option<u32>,
    /// Whether module name and code are taken from the source error.
    pub transparent: bool,
    /// Whether the variant re-raises a dispatcher abort.
    pub abort: bool,
}

/// An error enum, with the options given on it.
pub struct ErrorInput {
    pub ident: String,
    pub variants: Vec<ErrorVariant>,
    /// Name of the constant that holds the module name.
    pub module_name: Option<String>,
    /// Whether variants without a code are numbered in sequence.
    pub autonumber: bool,
}

/// A field of a variant, by name or by position.
pub enum Member {
    Named(String),
    Unnamed(u32),
}

/// Why no match arm can be generated for a variant.
#[derive(PartialEq, Eq, Structural, Clone, Copy, Debug)]
pub enum VariantError {
    /// A transparent variant marks more than one field as its source.
    MultipleSources,
    /// A transparent variant marks no field as its source.
    NoSource,
    /// The code written on the variant belongs to an earlier variant.
    CodeAlreadyUsed(u32),
    /// The variant has no code and the enum is not numbered in sequence.
    MissingCode,
}

/// What the generated `module_name` and `code` do for one variant.
pub enum Arm {
    /// The enum's module name and this code.
    Code(u32),
    /// Module name and code of the source error held in this field.
    Forward(Member),
    /// Nothing is generated; the variant is reported.
    Rejected(VariantError),
}

/// The plan for a whole enum.
pub enum Conversion {
    /// The enum has no variants: the code is 0 and nothing aborts.
    Empty,
    /// More than one variant is marked as the abort variant.
    MultipleAbortVariants,
    /// One arm per variant, in declaration order, and the position of the
    /// abort variant if there is one.
    Arms { abort: Option<usize>, arms: Vec<Arm> },
}

/// The outcome of planning the error implementation for an enum.
pub struct ErrorImpl {
    pub ident: String,
    pub module_name: String,
    pub conversion: Conversion,
}

/// Field `k` is marked as a source error.
pub open spec fn is_source(fields: Seq<ErrorField>, k: int) -> bool {
    0 <= k < fields.len() && fields[k].has_attrs
}

/// `member` addresses the field `field`, which stands at position `k`.
pub open spec fn member_of(field: ErrorField, k: int, member: Member) -> bool {
    match field.ident {
        Some(name) => member matches Member::Named(s) && s@ == name@,
        None => member == Member::Unnamed(k as u32),
    }
}

/// `arm` is the arm of a transparent variant with the given fields.
pub open spec fn forward_of(fields: Seq<ErrorField>, arm: Arm) -> bool {
    match arm {
        Arm::Rejected(VariantError::NoSource) => forall|k: int| !is_source(fields, k),
        Arm::Rejected(VariantError::MultipleSources) => exists|j: int, k: int|
            j != k && is_source(fields, j) && is_source(fields, k),
        Arm::Forward(member) => exists|k: int|
            is_source(fields, k) && (forall|j: int| is_source(fields, j) ==> j == k) && member_of(
                fields[k],
                k,
                member,
            ),
        _ => false,
    }
}

/// The codes taken by the first `i` arms.
pub open spec fn reserved_before(arms: Seq<Arm>, i: int) -> Set<u32> {
    Set::new(|c: u32| exists|j: int| 0 <= j < i && j < arms.len() && arms[j] == Arm::Code(c))
}

/// The variant takes its code from the sequence, if the enum has one.
pub open spec fn is_unnumbered(v: ErrorVariant) -> bool {
    !v.transparent && v.code is None
}

/// Where sequential numbering resumes after the first `i` variants: one
/// past the last code that the sequence gave out, 0 if it gave none.
pub open spec fn next_before(variants: Seq<ErrorVariant>, arms: Seq<Arm>, i: int) -> int
    decreases i,
{
    if i <= 0 {
        0
    } else if is_unnumbered(variants[i - 1]) {
        match arms[i - 1] {
            Arm::Code(c) => c + 1,
            _ => next_before(variants, arms, i - 1),
        }
    } else {
        next_before(variants, arms, i - 1)
    }
}

/// `c` is the least number from `next` on that `reserved` does not hold.
pub open spec fn is_next_free(reserved: Set<u32>, next: int, c: u32) -> bool {
    &&& next <= c
    &&& !reserved.contains(c)
    &&& forall|k: u32| next <= k < c ==> reserved.contains(k)
}

/// `arm` is the arm of a variant that carries a code of its own, given the
/// codes already taken and the point where the sequence resumes.
pub open spec fn coded_of(
    v: ErrorVariant,
    autonumber: bool,
    reserved: Set<u32>,
    next: int,
    arm: Arm,
) -> bool {
    match v.code {
        Some(c) => if reserved.contains(c) {
            arm == Arm::Rejected(VariantError::CodeAlreadyUsed(c))
        } else {
            arm == Arm::Code(c)
        },
        None => if autonumber {
            arm matches Arm::Code(c) && is_next_free(reserved, next, c)
        } else {
            arm == Arm::Rejected(VariantError::MissingCode)
        },
    }
}

/// `arms[i]` is the arm of `variants[i]`, given the arms before it.
pub open spec fn arm_of(
    variants: Seq<ErrorVariant>,
    autonumber: bool,
    arms: Seq<Arm>,
    i: int,
) -> bool {
    if variants[i].transparent {
        forward_of(variants[i].fields@, arms[i])
    } else {
        coded_of(
            variants[i],
            autonumber,
            reserved_before(arms, i),
            next_before(variants, arms, i),
            arms[i],
        )
    }
}

/// `arms` holds the arm of each variant, in declaration order.
pub open spec fn arms_of(variants: Seq<ErrorVariant>, autonumber: bool, arms: Seq<Arm>) -> bool {
    &&& arms.len() == variants.len()
    &&& forall|i: int| 0 <= i < variants.len() ==> arm_of(variants, autonumber, arms, i)
}

/// Variant `k` is marked as the abort variant.
pub open spec fn is_abort(variants: Seq<ErrorVariant>, k: int) -> bool {
    0 <= k < variants.len() && variants[k].abort
}

/// `abort` names the one abort variant, or none where there is none.
pub open spec fn abort_of(variants: Seq<ErrorVariant>, abort: Option<usize>) -> bool {
    match abort {
        Some(k) => is_abort(variants, k as int) && forall|j: int|
            is_abort(variants, j) ==> j == k,
        None => forall|j: int| !is_abort(variants, j),
    }
}

/// `conversion` is the plan for the given variants.
pub open spec fn conversion_of(
    variants: Seq<ErrorVariant>,
    autonumber: bool,
    conversion: Conversion,
) -> bool {
    match conversion {
        Conversion::Empty => variants.len() == 0,
        Conversion::MultipleAbortVariants => exists|j: int, k: int|
            j != k && is_abort(variants, j) && is_abort(variants, k),
        Conversion::Arms { abort, arms } => {
            &&& variants.len() > 0
            &&& abort_of(variants, abort)
            &&& arms_of(variants, autonumber, arms@)
        },
    }
}

/// Whether `codes` holds `c`.
fn contains_code(codes: &Vec<u32>, c: u32) -> (found: bool)
    ensures
        found == codes@.contains(c),
{
    let mut i: usize = 0;
    while i < codes.len()
        invariant
            i <= codes.len(),
            forall|j: int| 0 <= j < i ==> codes@[j] != c,
        decreases codes.len() - i,
    {
        if codes[i] == c {
            return true;
        }
        i += 1;
    }
    false
}

/// A sequence without repetition that holds every number below `n` has at
/// least `n` entries.
proof fn lemma_prefix_bounded(s: Seq<u32>, n: int)
    requires
        s.no_duplicates(),
        0 <= n <= u32::MAX + 1,
        forall|k: u32| k < n ==> s.contains(k),
    ensures
        n <= s.len(),
    decreases n,
{
    if n > 0 {
        let top = (n - 1) as u32;
        assert(s.contains(top));
        let at = choose|at: int| 0 <= at < s.len() && s[at] == top;
        let rest = s.remove(at);
        s.remove_ensures(at);
        assert(rest.no_duplicates());
        assert forall|k: u32| k < n - 1 implies rest.contains(k) by {
            assert(s.contains(k));
            let j = choose|j: int| 0 <= j < s.len() && s[j] == k;
            if j < at {
                assert(rest[j] == k);
            } else {
                assert(j > at);
                assert(rest[j - 1] == k);
            }
        }
        lemma_prefix_bounded(rest, n - 1);
    }
}

/// The arm of a variant depends on the arms before it, and on nothing
/// that comes after.
proof fn lemma_next_before_prefix(variants: Seq<ErrorVariant>, a: Seq<Arm>, b: Seq<Arm>, i: int)
    requires
        forall|j: int| 0 <= j < i ==> a[j] == b[j],
    ensures
        next_before(variants, a, i) == next_before(variants, b, i),
    decreases i,
{
    if i > 0 {
        lemma_next_before_prefix(variants, a, b, i - 1);
    }
}

proof fn lemma_arm_of_prefix(
    variants: Seq<ErrorVariant>,
    autonumber: bool,
    a: Seq<Arm>,
    b: Seq<Arm>,
    i: int,
)
    requires
        0 <= i < a.len() <= b.len(),
        forall|j: int| 0 <= j <= i ==> a[j] == b[j],
        arm_of(variants, autonumber, a, i),
    ensures
        arm_of(variants, autonumber, b, i),
{
    lemma_next_before_prefix(variants, a, b, i);
    assert(reserved_before(a, i) =~= reserved_before(b, i));
}

/// The arm of a transparent variant: it forwards to the one field marked
/// as the source, and is rejected where no field or several are marked.
pub fn find_source(variant: &ErrorVariant) -> (arm: Arm)
    requires
        variant.fields.len() <= u32::MAX,
    ensures
        forward_of(variant.fields@, arm),
{
    let fields = &variant.fields;
    let mut first: Option<usize> = None;
    let mut i: usize = 0;
    while i < fields.len()
        invariant
            fields == &variant.fields,
            i <= fields.len(),
            match first {
                Some(k) => is_source(fields@, k as int) && k < i && forall|j: int|
                    0 <= j < i && is_source(fields@, j) ==> j == k,
                None => forall|j: int| 0 <= j < i ==> !is_source(fields@, j),
            },
        decreases fields.len() - i,
    {
        if fields[i].has_attrs {
            match first {
                Some(k) => {
                    assert(k != i && is_source(fields@, k as int) && is_source(fields@, i as int));
                    assert(exists|j: int, k: int|
                        j != k && is_source(fields@, j) && is_source(fields@, k));
                    return Arm::Rejected(VariantError::MultipleSources);
                },
                None => {
                    first = Some(i);
                },
            }
        }
        i += 1;
    }
    match first {
        None => Arm::Rejected(VariantError::NoSource),
        Some(k) => {
            let member = match &fields[k].ident {
                Some(name) => Member::Named(name.clone()),
                None => Member::Unnamed(k as u32),
            };
            assert(member_of(fields@[k as int], k as int, member));
            Arm::Forward(member)
        },
    }
}

/// The position of the abort variant, `Err` where several are marked.
pub fn find_abort(variants: &Vec<ErrorVariant>) -> (r: Result<Option<usize>, ()>)
    ensures
        match r {
            Ok(abort) => abort_of(variants@, abort),
            Err(_) => exists|j: int, k: int|
                j != k && is_abort(variants@, j) && is_abort(variants@, k),
        },
{
    let mut found: Option<usize> = None;
    let mut i: usize = 0;
    while i < variants.len()
        invariant
            i <= variants.len(),
            match found {
                Some(k) => is_abort(variants@, k as int) && k < i && forall|j: int|
                    0 <= j < i && is_abort(variants@, j) ==> j == k,
                None => forall|j: int| 0 <= j < i ==> !is_abort(variants@, j),
            },
        decreases variants.len() - i,
    {
        if variants[i].abort {
            match found {
                Some(k) => {
                    assert(is_abort(variants@, k as int) && is_abort(variants@, i as int));
                    return Err(());
                },
                None => {
                    found = Some(i);
                },
            }
        }
        i += 1;
    }
    Ok(found)
}

/// Plans the match arms for the variants of an error enum.
///
/// Variants are taken in declaration order. A code written on a variant
/// is kept unless an earlier variant holds it. With `autonumber`, a variant
/// without a code gets the least number that is free, counting on from the
/// last number given out in sequence; so a number that was written out on
/// an earlier variant is skipped. A variant that cannot get an arm is
/// rejected and takes no number; the others are planned regardless.
pub fn convert_variants(variants: &Vec<ErrorVariant>, autonumber: bool) -> (conversion: Conversion)
    requires
        variants.len() <= u32::MAX,
        forall|i: int| 0 <= i < variants.len() ==> variants[i].fields.len() <= u32::MAX,
    ensures
        conversion_of(variants@, autonumber, conversion),
{
    if variants.len() == 0 {
        return Conversion::Empty;
    }
    let abort = match find_abort(variants) {
        Ok(abort) => abort,
        Err(_) => {
            return Conversion::MultipleAbortVariants;
        },
    };
    let mut next_autonumber: u32 = 0;
    let mut reserved: Vec<u32> = Vec::new();
    let mut arms: Vec<Arm> = Vec::new();
    let mut i: usize = 0;
    while i < variants.len()
        invariant
            i <= variants.len() <= u32::MAX,
            forall|k: int| 0 <= k < variants.len() ==> variants[k].fields.len() <= u32::MAX,
            arms.len() == i,
            forall|k: int| 0 <= k < i ==> arm_of(variants@, autonumber, arms@, k),
            reserved@.no_duplicates(),
            reserved.len() <= i,
            forall|c: u32| reserved@.contains(c) <==> reserved_before(arms@, i as int).contains(c),
            next_autonumber == next_before(variants@, arms@, i as int),
            forall|k: u32| k < next_autonumber ==> reserved@.contains(k),
        decreases variants.len() - i,
    {
        let variant = &variants[i];
        let ghost before = arms@;
        let ghost taken = reserved@;
        let ghost start = next_before(variants@, before, i as int);
        let arm = if variant.transparent {
            find_source(variant)
        } else {
            match variant.code {
                Some(code) => {
                    if contains_code(&reserved, code) {
                        Arm::Rejected(VariantError::CodeAlreadyUsed(code))
                    } else {
                        reserved.push(code);
                        proof {
                            assert forall|a: int, b: int|
                                0 <= a < reserved@.len() && 0 <= b < reserved@.len()
                                    && a != b implies reserved@[a] != reserved@[b] by {
                                if a < taken.len() {
                                    assert(taken.contains(taken[a]));
                                }
                                if b < taken.len() {
                                    assert(taken.contains(taken[b]));
                                }
                            }
                            assert forall|k: u32| taken.contains(k) implies reserved@.contains(
                                k,
                            ) by {
                                let j = choose|j: int| 0 <= j < taken.len() && taken[j] == k;
                                assert(reserved@[j] == k);
                            }
                            assert forall|k: u32| k < next_autonumber implies reserved@.contains(
                                k,
                            ) by {
                                assert(taken.contains(k));
                            }
                        }
                        Arm::Code(code)
                    }
                },
                None => {
                    if autonumber {
                        while contains_code(&reserved, next_autonumber)
                            invariant
                                i < variants.len() <= u32::MAX,
                                reserved@ == taken,
                                reserved@.no_duplicates(),
                                reserved.len() <= i,
                                next_before(variants@, before, i as int) <= next_autonumber,
                                forall|k: u32| k < next_autonumber ==> reserved@.contains(k),
                                forall|k: u32|
                                    next_before(variants@, before, i as int) <= k
                                        < next_autonumber ==> reserved@.contains(k),
                            decreases u32::MAX - next_autonumber,
                        {
                            proof {
                                lemma_prefix_bounded(reserved@, next_autonumber + 1);
                            }
                            next_autonumber += 1;
                        }
                        let code = next_autonumber;
                        proof {
                            assert(!taken.contains(code));
                            assert forall|k: u32| start <= k < code implies reserved_before(
                                before,
                                i as int,
                            ).contains(k) by {
                                assert(taken.contains(k));
                            }
                            assert(is_next_free(reserved_before(before, i as int), start, code));
                        }
                        reserved.push(code);
                        proof {
                            assert forall|a: int, b: int|
                                0 <= a < reserved@.len() && 0 <= b < reserved@.len()
                                    && a != b implies reserved@[a] != reserved@[b] by {
                                if a < taken.len() {
                                    assert(taken.contains(taken[a]));
                                }
                                if b < taken.len() {
                                    assert(taken.contains(taken[b]));
                                }
                            }
                            assert forall|k: u32| k < code + 1 implies reserved@.contains(k) by {
                                if k < code {
                                    assert(taken.contains(k));
                                    let j = choose|j: int| 0 <= j < taken.len() && taken[j] == k;
                                    assert(reserved@[j] == k);
                                } else {
                                    assert(reserved@[taken.len() as int] == k);
                                }
                            }
                            lemma_prefix_bounded(reserved@, code + 1);
                        }
                        next_autonumber += 1;
                        Arm::Code(code)
                    } else {
                        Arm::Rejected(VariantError::MissingCode)
                    }
                },
            }
        };
        proof {
            if !variant.transparent {
                assert(coded_of(
                    variants@[i as int],
                    autonumber,
                    reserved_before(before, i as int),
                    start,
                    arm,
                ));
            }
        }
        arms.push(arm);
        proof {
            let after = arms@;
            assert(after.len() == before.len() + 1);
            assert(forall|j: int| 0 <= j < i ==> after[j] == before[j]);
            assert(after[i as int] == arm);
            lemma_next_before_prefix(variants@, before, after, i as int);
            assert(reserved_before(after, i as int) =~= reserved_before(before, i as int));
            assert forall|k: int| 0 <= k < i implies arm_of(variants@, autonumber, after, k) by {
                lemma_arm_of_prefix(variants@, autonumber, before, after, k);
            }
            assert forall|c: u32|
                reserved@.contains(c) <==> reserved_before(after, i + 1).contains(c) by {
                if reserved@.contains(c) {
                    let j = choose|j: int| 0 <= j < reserved@.len() && reserved@[j] == c;
                    if j < taken.len() {
                        assert(taken.contains(c));
                        assert(reserved_before(before, i as int).contains(c));
                        let w = choose|w: int| 0 <= w < i && w < before.len() && before[w] == Arm::Code(c);
                        assert(after[w] == Arm::Code(c));
                    } else {
                        assert(after[i as int] == Arm::Code(c));
                    }
                }
                if reserved_before(after, i + 1).contains(c) {
                    let w = choose|w: int| 0 <= w < i + 1 && w < after.len() && after[w] == Arm::Code(c);
                    if w < i {
                        assert(before[w] == Arm::Code(c));
                        assert(reserved_before(before, i as int).contains(c));
                        assert(taken.contains(c));
                        let j = choose|j: int| 0 <= j < taken.len() && taken[j] == c;
                        assert(reserved@[j] == c);
                    } else {
                        assert(reserved@[reserved@.len() - 1] == c);
                    }
                }
            }
            assert(arm_of(variants@, autonumber, after, i as int));
        }
        i += 1;
    }
    Conversion::Arms { abort, arms }
}

/// Plans the error implementation of an enum: the constant that names the
/// module, `MODULE_NAME` unless the enum names another, and the arms.
pub fn derive_error(input: &ErrorInput) -> (out: ErrorImpl)
    requires
        input.variants.len() <= u32::MAX,
        forall|i: int| 0 <= i < input.variants.len() ==> input.variants[i].fields.len() <= u32::MAX,
    ensures
        out.ident@ == input.ident@,
        out.module_name@ == match input.module_name {
            Some(name) => name@,
            None => DEFAULT_MODULE_NAME@,
        },
        conversion_of(input.variants@, input.autonumber, out.conversion),
{
    let module_name = match &input.module_name {
        Some(name) => name.clone(),
        None => DEFAULT_MODULE_NAME.to_owned(),
    };
    ErrorImpl {
        ident: input.ident.clone(),
        module_name,
        conversion: convert_variants(&input.variants, input.autonumber),
    }
}

/// No two variants of an enum get the same code.
pub proof fn lemma_codes_distinct(
    variants: Seq<ErrorVariant>,
    autonumber: bool,
    arms: Seq<Arm>,
    i: int,
    j: int,
)
    requires
        arms_of(variants, autonumber, arms),
        0 <= i < j < arms.len(),
    ensures
        forall|a: u32, b: u32| arms[i] == Arm::Code(a) && arms[j] == Arm::Code(b) ==> a != b,
{
    assert forall|a: u32, b: u32| arms[i] == Arm::Code(a) && arms[j] == Arm::Code(
        b,
    ) implies a != b by {
        assert(arm_of(variants, autonumber, arms, j));
        assert(reserved_before(arms, j).contains(a));
    }
}

/// The arms are determined by the variants: two plans for the same
/// variants give every variant that carries a code of its own the same
/// arm.
pub proof fn lemma_arms_determined(
    variants: Seq<ErrorVariant>,
    autonumber: bool,
    a: Seq<Arm>,
    b: Seq<Arm>,
    i: int,
)
    requires
        arms_of(variants, autonumber, a),
        arms_of(variants, autonumber, b),
        0 <= i <= variants.len(),
    ensures
        forall|j: int| 0 <= j < i && !variants[j].transparent ==> a[j] == b[j],
        reserved_before(a, i) == reserved_before(b, i),
        next_before(variants, a, i) == next_before(variants, b, i),
    decreases i,
{
    if i > 0 {
        lemma_arms_determined(variants, autonumber, a, b, i - 1);
        let at = i - 1;
        assert(arm_of(variants, autonumber, a, at));
        assert(arm_of(variants, autonumber, b, at));
        if !variants[at].transparent {
            assert(a[at] == b[at]) by {
                if variants[at].code is None && autonumber {
                    let ca = a[at]->Code_0;
                    let cb = b[at]->Code_0;
                    if ca < cb {
                        assert(reserved_before(b, at).contains(ca));
                    }
                    if cb < ca {
                        assert(reserved_before(a, at).contains(cb));
                    }
                }
            }
        } else {
            assert(!(a[at] is Code));
            assert(!(b[at] is Code));
        }
        assert forall|c: u32| reserved_before(a, i).contains(c) == reserved_before(b, i).contains(
            c,
        ) by {
            if reserved_before(a, i).contains(c) {
                let j = choose|j: int| 0 <= j < i && j < a.len() && a[j] == Arm::Code(c);
                if j < at {
                    assert(reserved_before(a, at).contains(c));
                    let k = choose|k: int| 0 <= k < at && k < b.len() && b[k] == Arm::Code(c);
                    assert(b[k] == Arm::Code(c));
                } else {
                    assert(b[j] == Arm::Code(c));
                }
            }
            if reserved_before(b, i).contains(c) {
                let j = choose|j: int| 0 <= j < i && j < b.len() && b[j] == Arm::Code(c);
                if j < at {
                    assert(reserved_before(b, at).contains(c));
                    let k = choose|k: int| 0 <= k < at && k < a.len() && a[k] == Arm::Code(c);
                    assert(a[k] == Arm::Code(c));
                } else {
                    assert(a[j] == Arm::Code(c));
                }
            }
        }
        assert(reserved_before(a, i) =~= reserved_before(b, i));
    } else {
        assert(reserved_before(a, i) =~= reserved_before(b, i));
    }
}

} // verus!
