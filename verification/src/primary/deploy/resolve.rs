//! Putting environment values together.
use crate::config::{Alloc, EnvPart, EnvValue};
use crate::error::DeployError;
use crate::fsm::{FsmState, Secret};
use crate::net::{addr_text, SocketAddr};
use crate::seqs::{first, first_comes_before_all_others, lemma_is_first};
use vstd::prelude::*;
use vstd::string::*;
use vstd::utf8::{decode_utf8, valid_utf8};

verus! {

/// The words with which `String::from_utf8` refuses bytes.
pub uninterp spec fn utf8_error(bytes: Seq<u8>) -> Seq<char>;

/// The text that bytes encode in UTF-8, or the words of the error where they
/// encode none.
#[verifier::opaque]
pub open spec fn utf8_text(bytes: Seq<u8>) -> Result<Seq<char>, Seq<char>> {
    if valid_utf8(bytes) {
        Ok(decode_utf8(bytes))
    } else {
        Err(utf8_error(bytes))
    }
}

/// Reads bytes as UTF-8.
///
/// Calls `String::from_utf8`, which gives the text where the bytes are valid
/// UTF-8 and an error elsewhere; the words of the error depend on the bytes
/// alone, and go by the name `utf8_error`.
#[verifier::external_body]
pub(crate) fn text_from_utf8(bytes: Vec<u8>) -> (res: Result<String, String>)
    ensures
        match res {
            Ok(s) => utf8_text(bytes@) == Ok::<Seq<char>, Seq<char>>(s@),
            Err(e) => utf8_text(bytes@) == Err::<Seq<char>, Seq<char>>(e@) && e@ == utf8_error(
                bytes@,
            ),
        },
{
    String::from_utf8(bytes).map_err(|e| e.to_string())
}

/// Allocations of the given name that have an address.
pub open spec fn reachable(name: Seq<char>) -> spec_fn(Alloc) -> bool {
    |a: Alloc| a.name@ == name && a.address is Some
}

/// The secret of the given name.
pub open spec fn called(name: Seq<char>) -> spec_fn(Secret) -> bool {
    |s: Secret| s.name@ == name
}

/// The text for one part, or why there is none.
pub open spec fn part_text(fsm: FsmState, part: EnvPart) -> Result<Seq<char>, Seq<char>> {
    match part {
        EnvPart::Literal(s) => Ok(s@),
        EnvPart::ServiceAddress { service } => match first(fsm.allocs@, reachable(service@)) {
            Some(a) => Ok(addr_text(a.address->0)),
            None => Err("no address for service '"@ + service@ + "'"@),
        },
        EnvPart::Secret { name } => match first(fsm.secrets@, called(name@)) {
            Some(secret) => match secret.plaintext {
                Ok(bytes) => match utf8_text(bytes@) {
                    Ok(text) => Ok(text),
                    Err(e) => Err("secret '"@ + name@ + "' not utf8: "@ + e),
                },
                Err(e) => Err(e@),
            },
            None => Err("secret '"@ + name@ + "' not found"@),
        },
    }
}

/// The texts for the parts one after another, or why the first part without
/// one has none.
pub open spec fn parts_text(fsm: FsmState, parts: Seq<EnvPart>) -> Result<Seq<char>, Seq<char>>
    decreases parts.len(),
{
    if parts.len() == 0 {
        Ok(Seq::empty())
    } else {
        match parts_text(fsm, parts.drop_last()) {
            Ok(before) => match part_text(fsm, parts.last()) {
                Ok(text) => Ok(before + text),
                Err(e) => Err(e),
            },
            Err(e) => Err(e),
        }
    }
}

/// The text for a value, or why there is none.
pub open spec fn value_text(fsm: FsmState, value: EnvValue) -> Result<Seq<char>, Seq<char>> {
    match value {
        EnvValue::Literal(s) => Ok(s@),
        EnvValue::Interpolated { parts } => parts_text(fsm, parts@),
    }
}

/// The names and texts of variables, or why the first variable without a text
/// has none.
pub open spec fn resolved(fsm: FsmState, env: Seq<(String, EnvValue)>) -> Result<
    Seq<(Seq<char>, Seq<char>)>,
    Seq<char>,
>
    decreases env.len(),
{
    if env.len() == 0 {
        Ok(Seq::empty())
    } else {
        match resolved(fsm, env.drop_last()) {
            Ok(before) => match value_text(fsm, env.last().1) {
                Ok(text) => Ok(before.push((env.last().0@, text))),
                Err(e) => Err(e),
            },
            Err(e) => Err(e),
        }
    }
}

/// The contents of pairs of texts.
pub open spec fn pair_texts(v: Seq<(String, String)>) -> Seq<(Seq<char>, Seq<char>)> {
    Seq::new(v.len(), |i: int| (v[i].0@, v[i].1@))
}

/// A failed prefix makes the whole fail in the same way.
proof fn lemma_parts_fail(fsm: FsmState, parts: Seq<EnvPart>, i: int)
    requires
        0 <= i <= parts.len(),
        parts_text(fsm, parts.take(i)) is Err,
    ensures
        parts_text(fsm, parts) == parts_text(fsm, parts.take(i)),
    decreases parts.len() - i,
{
    if i < parts.len() {
        assert(parts.take(i + 1).drop_last() =~= parts.take(i));
        lemma_parts_fail(fsm, parts, i + 1);
    } else {
        assert(parts.take(i) =~= parts);
    }
}

proof fn lemma_resolve_fails(fsm: FsmState, env: Seq<(String, EnvValue)>, i: int)
    requires
        0 <= i <= env.len(),
        resolved(fsm, env.take(i)) is Err,
    ensures
        resolved(fsm, env) == resolved(fsm, env.take(i)),
    decreases env.len() - i,
{
    if i < env.len() {
        assert(env.take(i + 1).drop_last() =~= env.take(i));
        lemma_resolve_fails(fsm, env, i + 1);
    } else {
        assert(env.take(i) =~= env);
    }
}

/// The address of the first allocation of the service that has one.
fn service_address(fsm: &FsmState, service: &String) -> (res: Option<SocketAddr>)
    ensures
        res == match first(fsm.allocs@, reachable(service@)) {
            Some(a) => a.address,
            None => None,
        },
        res is Some <==> first(fsm.allocs@, reachable(service@)) is Some,
        res matches Some(addr) ==> exists|i: int|
            0 <= i < fsm.allocs@.len() && (#[trigger] fsm.allocs@[i]).name@ == service@
                && fsm.allocs@[i].address == Some(addr),
        res is None ==> forall|i: int|
            0 <= i < fsm.allocs@.len() && (#[trigger] fsm.allocs@[i]).name@ == service@
                ==> fsm.allocs@[i].address is None,
{
    let mut i: usize = 0;
    while i < fsm.allocs.len()
        invariant
            i <= fsm.allocs@.len(),
            forall|j: int| 0 <= j < i ==> !reachable(service@)(#[trigger] fsm.allocs@[j]),
        decreases fsm.allocs@.len() - i,
    {
        if fsm.allocs[i].name == *service && fsm.allocs[i].address.is_some() {
            proof {
                lemma_is_first(fsm.allocs@, reachable(service@), i as int);
            }
            return fsm.allocs[i].address;
        }
        i = i + 1;
    }
    proof {
        lemma_is_first(fsm.allocs@, reachable(service@), i as int);
    }
    None
}

/// The secret of the given name.
pub(crate) fn find_secret<'a>(fsm: &'a FsmState, name: &String) -> (res: Option<&'a Secret>)
    ensures
        res is Some <==> first(fsm.secrets@, called(name@)) is Some,
        res is Some ==> *res->0 == first(fsm.secrets@, called(name@))->0,
        res is Some ==> res->0.name@ == name@ && fsm.secrets@.contains(*res->0),
        res is None ==> forall|i: int|
            0 <= i < fsm.secrets@.len() ==> (#[trigger] fsm.secrets@[i]).name@ != name@,
{
    let mut i: usize = 0;
    while i < fsm.secrets.len()
        invariant
            i <= fsm.secrets@.len(),
            forall|j: int| 0 <= j < i ==> !called(name@)(#[trigger] fsm.secrets@[j]),
        decreases fsm.secrets@.len() - i,
    {
        if fsm.secrets[i].name == *name {
            proof {
                lemma_is_first(fsm.secrets@, called(name@), i as int);
            }
            return Some(&fsm.secrets[i]);
        }
        i = i + 1;
    }
    proof {
        lemma_is_first(fsm.secrets@, called(name@), i as int);
    }
    None
}

/// A copy of bytes.
pub(crate) fn copy_bytes(v: &Vec<u8>) -> (res: Vec<u8>)
    ensures
        res@ == v@,
{
    let mut out: Vec<u8> = Vec::new();
    let mut i: usize = 0;
    while i < v.len()
        invariant
            i <= v@.len(),
            out@ == v@.take(i as int),
        decreases v@.len() - i,
    {
        out.push(v[i]);
        i = i + 1;
        assert(out@ =~= v@.take(i as int));
    }
    assert(out@ =~= v@);
    out
}

/// The text for one part.
fn resolve_part(fsm: &FsmState, part: &EnvPart) -> (res: Result<String, DeployError>)
    ensures
        match res {
            Ok(s) => part_text(*fsm, *part) == Ok::<Seq<char>, Seq<char>>(s@),
            Err(e) => e matches DeployError::EnvResolution(words) && part_text(*fsm, *part)
                == Err::<Seq<char>, Seq<char>>(words@),
        },
{
    match part {
        EnvPart::Literal(s) => Ok(s.clone()),
        EnvPart::ServiceAddress { service } => match service_address(fsm, service) {
            Some(addr) => Ok(addr.to_text()),
            None => {
                let mut words = "no address for service '".to_owned();
                words.append(service.as_str());
                words.append("'");
                Err(DeployError::EnvResolution(words))
            },
        },
        EnvPart::Secret { name } => match find_secret(fsm, name) {
            Some(secret) => match &secret.plaintext {
                Ok(bytes) => match text_from_utf8(copy_bytes(bytes)) {
                    Ok(s) => Ok(s),
                    Err(e) => {
                        let mut words = "secret '".to_owned();
                        words.append(name.as_str());
                        words.append("' not utf8: ");
                        words.append(e.as_str());
                        Err(DeployError::EnvResolution(words))
                    },
                },
                Err(e) => Err(DeployError::EnvResolution(e.clone())),
            },
            None => {
                let mut words = "secret '".to_owned();
                words.append(name.as_str());
                words.append("' not found");
                Err(DeployError::EnvResolution(words))
            },
        },
    }
}

/// The text for a value.
pub fn resolve_env_value(fsm: &FsmState, value: &EnvValue) -> (res: Result<String, DeployError>)
    ensures
        match res {
            Ok(s) => value_text(*fsm, *value) == Ok::<Seq<char>, Seq<char>>(s@),
            Err(e) => e matches DeployError::EnvResolution(words) && value_text(*fsm, *value)
                == Err::<Seq<char>, Seq<char>>(words@),
        },
{
    match value {
        EnvValue::Literal(s) => Ok(s.clone()),
        EnvValue::Interpolated { parts } => {
            let mut result = String::new();
            let mut i: usize = 0;
            assert(result@ =~= Seq::<char>::empty());
            while i < parts.len()
                invariant
                    i <= parts@.len(),
                    parts_text(*fsm, parts@.take(i as int)) == Ok::<Seq<char>, Seq<char>>(result@),
                    value_text(*fsm, *value) == parts_text(*fsm, parts@),
                decreases parts@.len() - i,
            {
                assert(parts@.take(i + 1).drop_last() =~= parts@.take(i as int));
                match resolve_part(fsm, &parts[i]) {
                    Ok(text) => {
                        result.append(text.as_str());
                    },
                    Err(e) => {
                        proof {
                            lemma_parts_fail(*fsm, parts@, i + 1);
                        }
                        return Err(e);
                    },
                }
                i = i + 1;
            }
            assert(parts@.take(i as int) =~= parts@);
            Ok(result)
        },
    }
}

/// Resolves all values to plain texts.
pub fn resolve_env(fsm: &FsmState, env: &Vec<(String, EnvValue)>) -> (res: Result<
    Vec<(String, String)>,
    DeployError,
>)
    ensures
        match res {
            Ok(v) => resolved(*fsm, env@) == Ok::<Seq<(Seq<char>, Seq<char>)>, Seq<char>>(
                pair_texts(v@),
            ),
            Err(e) => e matches DeployError::EnvResolution(words) && resolved(*fsm, env@) == Err::<
                Seq<(Seq<char>, Seq<char>)>,
                Seq<char>,
            >(words@),
        },
{
    let mut out: Vec<(String, String)> = Vec::new();
    let mut i: usize = 0;
    assert(pair_texts(out@) =~= Seq::empty());
    while i < env.len()
        invariant
            i <= env@.len(),
            resolved(*fsm, env@.take(i as int)) == Ok::<Seq<(Seq<char>, Seq<char>)>, Seq<char>>(
                pair_texts(out@),
            ),
        decreases env@.len() - i,
    {
        assert(env@.take(i + 1).drop_last() =~= env@.take(i as int));
        let ghost before = pair_texts(out@);
        match resolve_env_value(fsm, &env[i].1) {
            Ok(text) => {
                out.push((env[i].0.clone(), text));
                assert(pair_texts(out@) =~= before.push((env@[i as int].0@, text@)));
            },
            Err(e) => {
                proof {
                    lemma_resolve_fails(*fsm, env@, i + 1);
                }
                return Err(e);
            },
        }
        i = i + 1;
    }
    assert(env@.take(i as int) =~= env@);
    Ok(out)
}

/// A reference to a service stands for the address of an allocation of that
/// service, the first one that has an address; it fails exactly where no
/// allocation of the service has one.
pub proof fn addresses_are_those_of_the_service(fsm: FsmState, service: String)
    ensures
        match part_text(fsm, EnvPart::ServiceAddress { service }) {
            Ok(text) => exists|i: int|
                {
                    &&& 0 <= i < fsm.allocs@.len()
                    &&& (#[trigger] fsm.allocs@[i]).name@ == service@
                    &&& fsm.allocs@[i].address matches Some(addr)
                    &&& text == addr_text(addr)
                    &&& forall|j: int|
                        0 <= j < i && (#[trigger] fsm.allocs@[j]).name@ == service@
                            ==> fsm.allocs@[j].address is None
                },
            Err(words) => {
                &&& words == "no address for service '"@ + service@ + "'"@
                &&& forall|j: int|
                    0 <= j < fsm.allocs@.len() && (#[trigger] fsm.allocs@[j]).name@ == service@
                        ==> fsm.allocs@[j].address is None
            },
        },
{
    first_comes_before_all_others(fsm.allocs@, reachable(service@));
}

/// A reference to a secret stands for the text that the first secret of that
/// name encodes; it fails exactly where there is no secret of that name, where
/// it could not be decrypted, and where it is no text.
pub proof fn secrets_are_those_of_the_name(fsm: FsmState, name: String)
    ensures
        match part_text(fsm, EnvPart::Secret { name }) {
            Ok(text) => exists|i: int|
                {
                    &&& 0 <= i < fsm.secrets@.len()
                    &&& (#[trigger] fsm.secrets@[i]).name@ == name@
                    &&& fsm.secrets@[i].plaintext matches Ok(bytes)
                    &&& valid_utf8(bytes@)
                    &&& text == decode_utf8(bytes@)
                    &&& forall|j: int| 0 <= j < i ==> (#[trigger] fsm.secrets@[j]).name@ != name@
                },
            Err(words) => {
                ||| {
                    &&& words == "secret '"@ + name@ + "' not found"@
                    &&& forall|j: int|
                        0 <= j < fsm.secrets@.len() ==> (#[trigger] fsm.secrets@[j]).name@ != name@
                }
                ||| exists|i: int|
                    {
                        &&& 0 <= i < fsm.secrets@.len()
                        &&& (#[trigger] fsm.secrets@[i]).name@ == name@
                        &&& forall|j: int|
                            0 <= j < i ==> (#[trigger] fsm.secrets@[j]).name@ != name@
                        &&& match fsm.secrets@[i].plaintext {
                            Ok(bytes) => !valid_utf8(bytes@) && words == "secret '"@ + name@
                                + "' not utf8: "@ + utf8_error(bytes@),
                            Err(e) => words == e@,
                        }
                    }
            },
        },
{
    reveal(utf8_text);
    first_comes_before_all_others(fsm.secrets@, called(name@));
}

/// A literal stands for itself, alone and as a part.
pub proof fn literals_stand_for_themselves(fsm: FsmState, text: String)
    ensures
        part_text(fsm, EnvPart::Literal(text)) == Ok::<Seq<char>, Seq<char>>(text@),
        value_text(fsm, EnvValue::Literal(text)) == Ok::<Seq<char>, Seq<char>>(text@),
{
}

/// A value made of parts is the texts of all its parts, one after another, and
/// fails exactly where a part does, in the way of the first that does.
pub proof fn values_hold_all_their_parts(fsm: FsmState, parts: Vec<EnvPart>)
    ensures
        match value_text(fsm, EnvValue::Interpolated { parts }) {
            Ok(text) => exists|texts: Seq<Seq<char>>|
                {
                    &&& texts.len() == parts@.len()
                    &&& text == #[trigger] texts.flatten()
                    &&& forall|k: int|
                        0 <= k < texts.len() ==> part_text(fsm, #[trigger] parts@[k]) == Ok::<
                            Seq<char>,
                            Seq<char>,
                        >(texts[k])
                },
            Err(words) => exists|k: int|
                {
                    &&& 0 <= k < parts@.len()
                    &&& part_text(fsm, #[trigger] parts@[k]) == Err::<Seq<char>, Seq<char>>(words)
                    &&& forall|j: int|
                        0 <= j < k ==> part_text(fsm, #[trigger] parts@[j]) is Ok
                },
        },
{
    let _ = lemma_parts(fsm, parts@);
}

proof fn lemma_parts(fsm: FsmState, parts: Seq<EnvPart>) -> (texts: Seq<Seq<char>>)
    ensures
        parts_text(fsm, parts) matches Ok(text) ==> {
            &&& texts.len() == parts.len()
            &&& text == texts.flatten()
            &&& forall|k: int|
                0 <= k < texts.len() ==> part_text(fsm, #[trigger] parts[k]) == Ok::<
                    Seq<char>,
                    Seq<char>,
                >(texts[k])
        },
        parts_text(fsm, parts) matches Err(words) ==> exists|k: int|
            {
                &&& 0 <= k < parts.len()
                &&& part_text(fsm, #[trigger] parts[k]) == Err::<Seq<char>, Seq<char>>(words)
                &&& forall|j: int| 0 <= j < k ==> part_text(fsm, #[trigger] parts[j]) is Ok
            },
    decreases parts.len(),
{
    if parts.len() == 0 {
        let none = Seq::<Seq<char>>::empty();
        assert(none.flatten() =~= Seq::<char>::empty());
        none
    } else {
        let rest = parts.drop_last();
        let before = lemma_parts(fsm, rest);
        if let Err(words) = parts_text(fsm, rest) {
            let k = choose|k: int|
                {
                    &&& 0 <= k < rest.len()
                    &&& part_text(fsm, #[trigger] rest[k]) == Err::<Seq<char>, Seq<char>>(words)
                    &&& forall|j: int| 0 <= j < k ==> part_text(fsm, #[trigger] rest[j]) is Ok
                };
            assert(parts[k] == rest[k]);
            assert forall|j: int| 0 <= j < k implies part_text(
                fsm,
                #[trigger] parts[j],
            ) is Ok by {
                assert(parts[j] == rest[j]);
            }
            before
        } else {
            assert forall|j: int| 0 <= j < rest.len() implies part_text(
                fsm,
                #[trigger] parts[j],
            ) == Ok::<Seq<char>, Seq<char>>(before[j]) by {
                assert(parts[j] == rest[j]);
            }
            match part_text(fsm, parts.last()) {
                Ok(text) => {
                    before.lemma_flatten_push(text);
                    before.push(text)
                },
                Err(_) => {
                    assert(parts[parts.len() - 1] == parts.last());
                    before
                },
            }
        }
    }
}

/// The environment of a container has the variables of the definition, each
/// once, in their order, each with the text for its own value; it fails exactly
/// where a value does, in the way of the first that does.
pub proof fn environments_hold_all_variables(fsm: FsmState, env: Seq<(String, EnvValue)>)
    ensures
        match resolved(fsm, env) {
            Ok(vars) => {
                &&& vars.len() == env.len()
                &&& forall|k: int|
                    0 <= k < env.len() ==> (#[trigger] vars[k]).0 == env[k].0@ && value_text(
                        fsm,
                        env[k].1,
                    ) == Ok::<Seq<char>, Seq<char>>(vars[k].1)
            },
            Err(words) => exists|k: int|
                {
                    &&& 0 <= k < env.len()
                    &&& value_text(fsm, (#[trigger] env[k]).1) == Err::<Seq<char>, Seq<char>>(words)
                    &&& forall|j: int| 0 <= j < k ==> value_text(fsm, (#[trigger] env[j]).1) is Ok
                },
        },
    decreases env.len(),
{
    if env.len() > 0 {
        let rest = env.drop_last();
        environments_hold_all_variables(fsm, rest);
        match resolved(fsm, rest) {
            Ok(before) => {
                assert forall|j: int| 0 <= j < rest.len() implies value_text(
                    fsm,
                    (#[trigger] env[j]).1,
                ) is Ok by {
                    assert(rest[j] == env[j]);
                    assert(before[j].0 == rest[j].0@);
                }
                if let Ok(vars) = resolved(fsm, env) {
                    assert forall|k: int| 0 <= k < env.len() implies (#[trigger] vars[k]).0
                        == env[k].0@ && value_text(fsm, env[k].1) == Ok::<Seq<char>, Seq<char>>(
                        vars[k].1,
                    ) by {
                        if k < rest.len() {
                            assert(vars[k] == before[k]);
                            assert(rest[k] == env[k]);
                        }
                    }
                } else {
                    assert(env[env.len() - 1] == env.last());
                }
            },
            Err(words) => {
                let k = choose|k: int|
                    {
                        &&& 0 <= k < rest.len()
                        &&& value_text(fsm, (#[trigger] rest[k]).1) == Err::<
                            Seq<char>,
                            Seq<char>,
                        >(words)
                        &&& forall|j: int|
                            0 <= j < k ==> value_text(fsm, (#[trigger] rest[j]).1) is Ok
                    };
                assert(env[k] == rest[k]);
                assert forall|j: int| 0 <= j < k implies value_text(
                    fsm,
                    (#[trigger] env[j]).1,
                ) is Ok by {
                    assert(env[j] == rest[j]);
                }
            },
        }
    }
}

} // verus!
