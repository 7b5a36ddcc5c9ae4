//! Resolution of dotted type references.
//!
//! A reference is looked up along a chain of scopes: the message that holds
//! the field, the messages around it from the inside out, and the package.
//! The first scope that declares the first segment decides; the segments after
//! it are looked up among the declarations nested in what the one before
//! named. A reference that no scope declares may still spell out the package
//! name, in full before a declaration of the package or in part.

use vstd::prelude::*;
use crate::views::{views, lemma_views_push, lemma_views_empty};
use crate::error::{ProtoError, ProtoErrorView};
use crate::package::{
    MessageEntry, MessageEntryView, MessageDeclaration, MessageDeclarationView, EnumDeclaration,
    EnumDeclarationView, Declaration, DeclarationView, Package, PackageView, lemma_message_view,
};

verus! {

/// A place in a package from which references are resolved.
#[derive(Debug)]
pub struct BlockScope<'a> {
    pub package: &'a Package,
    /// The messages around the place, the outermost first.
    pub messages: Vec<&'a MessageDeclaration>,
}

/// The view of [`BlockScope`].
pub struct BlockScopeView {
    pub package: PackageView,
    pub messages: Seq<MessageDeclarationView>,
}

impl<'a> View for BlockScope<'a> {
    type V = BlockScopeView;

    open spec fn view(&self) -> BlockScopeView {
        BlockScopeView { package: self.package@, messages: views(self.messages@) }
    }
}

/// What a reference names.
#[derive(Clone, Copy, Debug, PartialEq, Eq)]
pub enum IdType<'a> {
    Message(&'a MessageDeclaration),
    Enum(&'a EnumDeclaration),
    /// The package itself, or a package that its name lies in.
    Package,
}

/// The view of [`IdType`].
pub enum IdTypeView {
    Message(MessageDeclarationView),
    Enum(EnumDeclarationView),
    Package,
}

impl<'a> View for IdType<'a> {
    type V = IdTypeView;

    open spec fn view(&self) -> IdTypeView {
        match self {
            IdType::Message(message) => IdTypeView::Message(message@),
            IdType::Enum(declaration) => IdTypeView::Enum(declaration@),
            IdType::Package => IdTypeView::Package,
        }
    }
}

/// The type that an entry of a message body declares under `name`, if it
/// declares one.
pub open spec fn entry_declares(entry: MessageEntryView, name: Seq<char>) -> Option<IdTypeView> {
    match entry {
        MessageEntryView::Message(message) => if message.name == name {
            Some(IdTypeView::Message(message))
        } else {
            None
        },
        MessageEntryView::Enum(declaration) => if declaration.name == name {
            Some(IdTypeView::Enum(declaration))
        } else {
            None
        },
        _ => None,
    }
}

/// The type that a top-level declaration declares under `name`, if it does.
pub open spec fn declaration_declares(declaration: DeclarationView, name: Seq<char>) -> Option<
    IdTypeView,
> {
    match declaration {
        DeclarationView::Message(message) => if message.name == name {
            Some(IdTypeView::Message(message))
        } else {
            None
        },
        DeclarationView::Enum(declaration) => if declaration.name == name {
            Some(IdTypeView::Enum(declaration))
        } else {
            None
        },
    }
}

/// The first type named `name` that the entries from `from` on declare.
pub open spec fn find_nested(entries: Seq<MessageEntryView>, name: Seq<char>, from: int) -> Option<
    IdTypeView,
>
    decreases entries.len() - from,
{
    if from < 0 || from >= entries.len() {
        None
    } else {
        match entry_declares(entries[from], name) {
            Some(found) => Some(found),
            None => find_nested(entries, name, from + 1),
        }
    }
}

/// The first type named `name` that the declarations from `from` on declare.
pub open spec fn find_declared(
    declarations: Seq<DeclarationView>,
    name: Seq<char>,
    from: int,
) -> Option<IdTypeView>
    decreases declarations.len() - from,
{
    if from < 0 || from >= declarations.len() {
        None
    } else {
        match declaration_declares(declarations[from], name) {
            Some(found) => Some(found),
            None => find_declared(declarations, name, from + 1),
        }
    }
}

/// The unresolved-reference error for `path` with segment `missing` not found.
pub open spec fn unresolved(path: Seq<Seq<char>>, missing: int) -> ProtoErrorView {
    ProtoErrorView::Unresolved { path, missing: missing as usize }
}

/// What the segments of `path` from `next` on name inside `found`, which the
/// segments before them named: `found` itself where none is left, and else
/// what the rest names among the declarations nested in the message `found`.
pub open spec fn descend(found: IdTypeView, path: Seq<Seq<char>>, next: int) -> Result<
    IdTypeView,
    ProtoErrorView,
>
    decreases path.len() - next,
{
    if next < 0 || next >= path.len() {
        Ok(found)
    } else {
        match found {
            IdTypeView::Message(message) => match find_nested(message.entries, path[next], 0) {
                Some(nested) => descend(nested, path, next + 1),
                None => Err(unresolved(path, next)),
            },
            _ => Err(unresolved(path, next)),
        }
    }
}

/// Whether `prefix` is equal to the first segments of `path`.
pub open spec fn starts_with(path: Seq<Seq<char>>, prefix: Seq<Seq<char>>) -> bool {
    prefix.len() <= path.len() && path.subrange(0, prefix.len() as int) == prefix
}

/// What `path` names seen from the package alone.
pub open spec fn resolve_in_package(package: PackageView, path: Seq<Seq<char>>) -> Result<
    IdTypeView,
    ProtoErrorView,
> {
    match find_declared(package.declarations, path[0], 0) {
        Some(found) => descend(found, path, 1),
        None => if starts_with(package.path, path) {
            Ok(IdTypeView::Package)
        } else if package.path.len() > 0 && starts_with(path, package.path) {
            match find_declared(package.declarations, path[package.path.len() as int], 0) {
                Some(found) => descend(found, path, package.path.len() as int + 1),
                None => Err(unresolved(path, package.path.len() as int)),
            }
        } else {
            Err(unresolved(path, 0))
        },
    }
}

/// What `path` names seen from the message at `level` of the chain, where
/// level 0 is the package.
pub open spec fn resolve_from(scope: BlockScopeView, path: Seq<Seq<char>>, level: int) -> Result<
    IdTypeView,
    ProtoErrorView,
>
    decreases level,
{
    if level <= 0 || level > scope.messages.len() {
        resolve_in_package(scope.package, path)
    } else {
        match find_nested(scope.messages[level - 1].entries, path[0], 0) {
            Some(found) => descend(found, path, 1),
            None => resolve_from(scope, path, level - 1),
        }
    }
}

/// What `path` names in `scope`. An empty path names nothing.
pub open spec fn resolve(scope: BlockScopeView, path: Seq<Seq<char>>) -> Result<
    IdTypeView,
    ProtoErrorView,
> {
    if path.len() == 0 {
        Err(unresolved(path, 0))
    } else {
        resolve_from(scope, path, scope.messages.len() as int)
    }
}

/// Copies a list of strings.
pub fn copy_path(path: &Vec<String>) -> (copy: Vec<String>)
    ensures
        views(copy@) == views(path@),
{
    let mut copy: Vec<String> = Vec::new();
    let mut i: usize = 0;
    while i < path.len()
        invariant
            i <= path@.len(),
            views(copy@) =~= views(path@.subrange(0, i as int)),
        decreases path@.len() - i,
    {
        let segment = path[i].clone();
        proof {
            lemma_views_push(copy@, segment);
            assert(path@.subrange(0, i + 1) =~= path@.subrange(0, i as int).push(path@[i as int]));
            lemma_views_push(path@.subrange(0, i as int), path@[i as int]);
        }
        copy.push(segment);
        i = i + 1;
    }
    proof {
        assert(path@.subrange(0, i as int) =~= path@);
    }
    copy
}

/// The unresolved-reference error for `path` with segment `missing` not found.
pub fn unresolved_error(path: &Vec<String>, missing: usize) -> (error: ProtoError)
    ensures
        error@ == unresolved(views(path@), missing as int),
{
    let copy = copy_path(path);
    proof {
        assert(copy.deep_view() =~= views(copy@));
    }
    ProtoError::Unresolved { path: copy, missing }
}

/// Looks `name` up among the declarations nested in a message body.
pub fn lookup_nested<'a>(entries: &'a Vec<MessageEntry>, name: &String) -> (found: Option<
    IdType<'a>,
>)
    ensures
        match found {
            Some(found) => find_nested(views(entries@), name@, 0) == Some(found@),
            None => find_nested(views(entries@), name@, 0) is None,
        },
{
    let mut i: usize = 0;
    while i < entries.len()
        invariant
            i <= entries@.len(),
            find_nested(views(entries@), name@, 0) == find_nested(views(entries@), name@, i as int),
        decreases entries@.len() - i,
    {
        match &entries[i] {
            MessageEntry::Message(message) => {
                if message.name == *name {
                    return Some(IdType::Message(message));
                }
            },
            MessageEntry::Enum(declaration) => {
                if declaration.name == *name {
                    return Some(IdType::Enum(declaration));
                }
            },
            _ => {},
        }
        i = i + 1;
    }
    None
}

/// Looks `name` up among the top-level declarations.
pub fn lookup_declared<'a>(declarations: &'a Vec<Declaration>, name: &String) -> (found: Option<
    IdType<'a>,
>)
    ensures
        match found {
            Some(found) => find_declared(views(declarations@), name@, 0) == Some(found@),
            None => find_declared(views(declarations@), name@, 0) is None,
        },
{
    let mut i: usize = 0;
    while i < declarations.len()
        invariant
            i <= declarations@.len(),
            find_declared(views(declarations@), name@, 0) == find_declared(
                views(declarations@),
                name@,
                i as int,
            ),
        decreases declarations@.len() - i,
    {
        match &declarations[i] {
            Declaration::Message(message) => {
                if message.name == *name {
                    return Some(IdType::Message(message));
                }
            },
            Declaration::Enum(declaration) => {
                if declaration.name == *name {
                    return Some(IdType::Enum(declaration));
                }
            },
        }
        i = i + 1;
    }
    None
}

/// Follows the segments of `path` from `next` on into `found`.
pub fn resolve_nested<'a>(found: IdType<'a>, path: &Vec<String>, next: usize) -> (result: Result<
    IdType<'a>,
    ProtoError,
>)
    ensures
        match result {
            Ok(resolved) => descend(found@, views(path@), next as int) == Ok::<
                IdTypeView,
                ProtoErrorView,
            >(resolved@),
            Err(error) => descend(found@, views(path@), next as int) == Err::<
                IdTypeView,
                ProtoErrorView,
            >(error@),
        },
{
    let mut current = found;
    let mut i = next;
    while i < path.len()
        invariant
            descend(found@, views(path@), next as int) == descend(current@, views(path@), i as int),
        decreases path@.len() - i,
    {
        match current {
            IdType::Message(message) => {
                proof {
                    lemma_message_view(*message);
                }
                match lookup_nested(&message.entries, &path[i]) {
                    Some(nested) => {
                        current = nested;
                    },
                    None => {
                        return Err(unresolved_error(path, i));
                    },
                }
            },
            _ => {
                return Err(unresolved_error(path, i));
            },
        }
        i = i + 1;
    }
    Ok(current)
}

/// Tests whether `prefix` is equal to the first segments of `path`.
pub fn path_starts_with(path: &Vec<String>, prefix: &Vec<String>) -> (found: bool)
    ensures
        found == starts_with(views(path@), views(prefix@)),
{
    if prefix.len() > path.len() {
        return false;
    }
    let mut i: usize = 0;
    while i < prefix.len()
        invariant
            i <= prefix@.len() <= path@.len(),
            forall|k: int| 0 <= k < i ==> (#[trigger] path@[k])@ == prefix@[k]@,
        decreases prefix@.len() - i,
    {
        if path[i] != prefix[i] {
            proof {
                let cut = views(path@).subrange(0, prefix@.len() as int);
                assert(cut[i as int] == path@[i as int]@);
                assert(views(prefix@)[i as int] == prefix@[i as int]@);
            }
            return false;
        }
        i = i + 1;
    }
    proof {
        assert(views(path@).subrange(0, prefix@.len() as int) =~= views(prefix@));
    }
    true
}

impl<'a> BlockScope<'a> {
    /// The scope of the package itself, outside any message.
    pub fn root(package: &'a Package) -> (scope: BlockScope<'a>)
        ensures
            scope@ == (BlockScopeView { package: package@, messages: Seq::empty() }),
    {
        proof {
            lemma_views_empty::<&'a MessageDeclaration>();
        }
        BlockScope { package, messages: Vec::new() }
    }

    /// The scope inside `message`, which is declared in this scope.
    pub fn enter(self, message: &'a MessageDeclaration) -> (scope: BlockScope<'a>)
        ensures
            scope@ == (BlockScopeView {
                package: self@.package,
                messages: self@.messages.push(message@),
            }),
    {
        let mut messages = self.messages;
        proof {
            lemma_views_push(messages@, message);
        }
        messages.push(message);
        BlockScope { package: self.package, messages }
    }

    /// Resolves a dotted reference in this scope.
    ///
    /// The result is what [`resolve`] says: the message or the enum that the
    /// reference names, the package where it spells out the package name or a
    /// part of it from its start, and else the error that names the first
    /// segment that is not declared.
    pub fn resolve_path(&self, path: &Vec<String>) -> (result: Result<IdType<'a>, ProtoError>)
        ensures
            match result {
                Ok(resolved) => resolve(self@, views(path@)) == Ok::<IdTypeView, ProtoErrorView>(
                    resolved@,
                ),
                Err(error) => resolve(self@, views(path@)) == Err::<IdTypeView, ProtoErrorView>(
                    error@,
                ),
            },
    {
        if path.len() == 0 {
            return Err(unresolved_error(path, 0));
        }
        let mut level = self.messages.len();
        while level > 0
            invariant
                path@.len() > 0,
                level <= self.messages@.len(),
                resolve(self@, views(path@)) == resolve_from(self@, views(path@), level as int),
            decreases level,
        {
            let message = self.messages[level - 1];
            proof {
                lemma_message_view(*message);
            }
            match lookup_nested(&message.entries, &path[0]) {
                Some(found) => {
                    return resolve_nested(found, path, 1);
                },
                None => {},
            }
            level = level - 1;
        }
        let package = self.package;
        match lookup_declared(&package.declarations, &path[0]) {
            Some(found) => resolve_nested(found, path, 1),
            None => {
                if path_starts_with(&package.path, path) {
                    Ok(IdType::Package)
                } else if package.path.len() > 0 && path_starts_with(path, &package.path) {
                    let first = package.path.len();
                    proof {
                        let whole = views(path@);
                        let prefix = views(package.path@);
                        if whole.len() == prefix.len() {
                            assert(whole.subrange(0, prefix.len() as int) =~= whole);
                            assert(prefix.subrange(0, whole.len() as int) =~= prefix);
                        }
                    }
                    match lookup_declared(&package.declarations, &path[first]) {
                        Some(found) => resolve_nested(found, path, first + 1),
                        None => Err(unresolved_error(path, first)),
                    }
                } else {
                    Err(unresolved_error(path, 0))
                }
            },
        }
    }
}

} // verus!
