//! A crosshair that can be given to a weapon.

use crate::path::extension;
use crate::path::extension_of;
use crate::text::append_str;
use crate::text::chars_of;
use crate::text::same_chars;
use crate::text::string_of;
use vstd::prelude::*;

verus! {

/// A crosshair image on disk, with the size of its picture.
#[derive(Debug)]
pub struct CrosshairItem {
    /// The name shown in the list of crosshairs.
    pub name: String,
    /// Where the image lies.
    pub path: String,
    /// Width and height in pixels; `(0, 0)` where the image could not be
    /// decoded.
    pub size: (i32, i32),
}

/// The mathematical value of a [`CrosshairItem`].
pub struct CrosshairItemView {
    pub name: Seq<char>,
    pub path: Seq<char>,
    pub size: (i32, i32),
}

impl View for CrosshairItem {
    type V = CrosshairItemView;

    open spec fn view(&self) -> CrosshairItemView {
        CrosshairItemView { name: self.name@, path: self.path@, size: self.size }
    }
}

impl Clone for CrosshairItem {
    fn clone(&self) -> (r: CrosshairItem)
        ensures
            r@ == self@,
    {
        CrosshairItem {
            name: self.name.clone(),
            path: self.path.clone(),
            size: (self.size.0, self.size.1),
        }
    }
}

impl CrosshairItem {
    /// The crosshair of the image at `path`, shown as `name`. Its size is
    /// not known yet.
    pub fn new(name: String, path: String) -> (r: CrosshairItem)
        ensures
            r@ == (CrosshairItemView { name: name@, path: path@, size: (0i32, 0i32) }),
    {
        CrosshairItem { name, path, size: (0, 0) }
    }
}

/// Whether the file at `path` is a crosshair texture: its extension is
/// `vtf`.
pub open spec fn is_texture_path(path: Seq<char>) -> bool {
    extension(path) == Some("vtf"@)
}

/// Whether the file at `path` is a crosshair texture.
pub fn is_texture(path: &str) -> (b: bool)
    ensures
        b == is_texture_path(path@),
{
    match extension_of(&chars_of(path)) {
        Some(e) => {
            let vtf = chars_of("vtf");
            same_chars(&e, &vtf)
        },
        None => false,
    }
}

/// A texture file, with what decoding it gave: the width and height of its
/// picture, or the reason why it could not be decoded.
pub struct Texture {
    /// The name of the file.
    pub name: String,
    /// Where the file lies.
    pub path: String,
    /// The size of the picture, or why there is none.
    pub decoded: Result<(i32, i32), String>,
}

/// The mathematical value of a [`Texture`].
pub struct TextureModel {
    pub name: Seq<char>,
    pub path: Seq<char>,
    pub decoded: Result<(i32, i32), Seq<char>>,
}

impl View for Texture {
    type V = TextureModel;

    open spec fn view(&self) -> TextureModel {
        TextureModel {
            name: self.name@,
            path: self.path@,
            decoded: match self.decoded {
                Ok(size) => Ok(size),
                Err(reason) => Err(reason@),
            },
        }
    }
}

/// The views of a sequence of textures.
pub open spec fn texture_views(textures: Seq<Texture>) -> Seq<TextureModel> {
    Seq::new(textures.len(), |i: int| textures[i]@)
}

/// The crosshair that a texture gives: with the size of its picture, or
/// with `(0, 0)` where it could not be decoded.
pub open spec fn crosshair_of_texture(texture: TextureModel) -> CrosshairItemView {
    CrosshairItemView {
        name: texture.name,
        path: texture.path,
        size: match texture.decoded {
            Ok(size) => size,
            Err(_) => (0i32, 0i32),
        },
    }
}

/// The message that tells of a texture that was passed over.
pub open spec fn skip_message(name: Seq<char>, reason: Seq<char>) -> Seq<char> {
    "Skipping "@ + name + "; "@ + reason
}

/// The messages for the textures that could not be decoded, in the order
/// of the textures.
pub open spec fn skip_messages(textures: Seq<TextureModel>) -> Seq<Seq<char>>
    decreases textures.len(),
{
    if textures.len() == 0 {
        Seq::empty()
    } else {
        match textures.last().decoded {
            Ok(_) => skip_messages(textures.drop_last()),
            Err(reason) => skip_messages(textures.drop_last()).push(
                skip_message(textures.last().name, reason),
            ),
        }
    }
}

/// The number of textures that were decoded.
pub open spec fn decoded_count(textures: Seq<TextureModel>) -> nat
    decreases textures.len(),
{
    if textures.len() == 0 {
        0
    } else if textures.last().decoded is Ok {
        decoded_count(textures.drop_last()) + 1
    } else {
        decoded_count(textures.drop_last())
    }
}

/// What a scan of the textures gives.
pub struct CrosshairScan {
    /// One crosshair for each texture, in the order of the textures.
    pub items: Vec<CrosshairItem>,
    /// How many of the textures were decoded.
    pub decoded: usize,
    /// One message for each texture that could not be decoded.
    pub skipped: Vec<String>,
}

/// The views of a sequence of messages.
pub open spec fn message_views(messages: Seq<String>) -> Seq<Seq<char>> {
    Seq::new(messages.len(), |i: int| messages[i]@)
}

/// Every texture is decoded or passed over: the decoded ones and the
/// messages for the others add up to the number of textures.
pub proof fn law_every_texture_is_counted(textures: Seq<TextureModel>)
    ensures
        decoded_count(textures) + skip_messages(textures).len() == textures.len(),
    decreases textures.len(),
{
    if textures.len() > 0 {
        law_every_texture_is_counted(textures.drop_last());
    }
}

/// Makes the crosshairs of the textures.
///
/// Each texture gives one crosshair, whatever became of the others: one
/// that was decoded gives its size, one that was not gives `(0, 0)` and a
/// message that names it and the reason.
pub fn collect_crosshairs(textures: &Vec<Texture>) -> (scan: CrosshairScan)
    ensures
        scan.items.len() == textures.len(),
        forall|i: int|
            0 <= i < textures.len() ==> (#[trigger] scan.items@[i])@ == crosshair_of_texture(
                textures@[i]@,
            ),
        scan.decoded == decoded_count(texture_views(textures@)),
        message_views(scan.skipped@) == skip_messages(texture_views(textures@)),
        scan.decoded + scan.skipped.len() == textures.len(),
{
    let ghost all = texture_views(textures@);
    let mut items: Vec<CrosshairItem> = Vec::new();
    let mut skipped: Vec<String> = Vec::new();
    let mut decoded: usize = 0;
    let mut i: usize = 0;
    assert(all.take(0) =~= Seq::<TextureModel>::empty());
    assert(message_views(skipped@) =~= skip_messages(all.take(0)));
    while i < textures.len()
        invariant
            i <= textures.len(),
            all == texture_views(textures@),
            items.len() == i,
            forall|j: int|
                0 <= j < i ==> (#[trigger] items@[j])@ == crosshair_of_texture(textures@[j]@),
            decoded == decoded_count(all.take(i as int)),
            message_views(skipped@) == skip_messages(all.take(i as int)),
            decoded + skipped.len() == i,
        decreases textures.len() - i,
    {
        let texture = &textures[i];
        proof {
            let done = all.take(i + 1);
            assert(done.drop_last() =~= all.take(i as int));
            assert(done.last() == texture@);
        }
        let size = match &texture.decoded {
            Ok(size) => {
                decoded += 1;
                (size.0, size.1)
            },
            Err(reason) => {
                let mut message: Vec<char> = Vec::new();
                append_str(&mut message, "Skipping ");
                append_str(&mut message, texture.name.as_str());
                append_str(&mut message, "; ");
                append_str(&mut message, reason.as_str());
                let ghost before = message_views(skipped@);
                skipped.push(string_of(&message));
                assert(message_views(skipped@) =~= before.push(message@));
                (0, 0)
            },
        };
        items.push(CrosshairItem { name: texture.name.clone(), path: texture.path.clone(), size });
        i += 1;
    }
    assert(all.take(textures.len() as int) =~= all);
    CrosshairScan { items, decoded, skipped }
}

} // verus!
