//! The flat parameter vector of a calibration problem: the four intrinsics of
//! the camera, then six pose parameters for each image.

use crate::layout::{param_count, param_len, tangent_offset, LayoutError};
use vstd::prelude::*;

verus! {

/// The intrinsics of a pinhole camera: the focal lengths along x and y and
/// the principal point.
#[derive(Debug, PartialEq)]
pub struct Intrinsics<T> {
    pub fx: T,
    pub fy: T,
    pub cx: T,
    pub cy: T,
}

/// A pose in its minimal form: the three components of the translation part
/// and the three of the rotation part.
#[derive(Debug, PartialEq)]
pub struct Tangent<T> {
    pub tx: T,
    pub ty: T,
    pub tz: T,
    pub wx: T,
    pub wy: T,
    pub wz: T,
}

impl<T> Intrinsics<T> {
    /// The intrinsics in the order in which the parameter vector holds them.
    pub open spec fn to_seq(self) -> Seq<T> {
        seq![self.fx, self.fy, self.cx, self.cy]
    }
}

impl<T> Tangent<T> {
    /// The pose parameters in the order in which the parameter vector holds
    /// them.
    pub open spec fn to_seq(self) -> Seq<T> {
        seq![self.tx, self.ty, self.tz, self.wx, self.wy, self.wz]
    }
}

/// The intrinsics that a flat parameter vector holds.
pub open spec fn spec_intrinsics<T>(params: Seq<T>) -> Intrinsics<T> {
    Intrinsics { fx: params[0], fy: params[1], cx: params[2], cy: params[3] }
}

/// The pose parameters of image `image` that a flat parameter vector holds.
pub open spec fn spec_tangent<T>(params: Seq<T>, image: int) -> Tangent<T> {
    let at = tangent_offset(image);
    Tangent {
        tx: params[at],
        ty: params[at + 1],
        tz: params[at + 2],
        wx: params[at + 3],
        wy: params[at + 4],
        wz: params[at + 5],
    }
}

/// The pose parameters of the first `num_images` images that a flat
/// parameter vector holds.
pub open spec fn spec_tangents<T>(params: Seq<T>, num_images: nat) -> Seq<Tangent<T>> {
    Seq::new(num_images, |image: int| spec_tangent(params, image))
}

/// The flat parameter vector of a camera and the poses of its images.
pub open spec fn spec_encode<T>(intrinsics: Intrinsics<T>, tangents: Seq<Tangent<T>>) -> Seq<T> {
    Seq::new(
        param_len(tangents.len() as int) as nat,
        |at: int|
            if at < 4 {
                intrinsics.to_seq()[at]
            } else {
                tangents[(at - 4) / 6].to_seq()[(at - 4) % 6]
            },
    )
}

/// Reads the intrinsics and the pose parameters of `num_images` images from a
/// flat parameter vector. What the vector holds past them is not looked at.
pub fn decode_params<T: Copy>(params: &[T], num_images: usize) -> (outcome: Result<
    (Intrinsics<T>, Vec<Tangent<T>>),
    LayoutError,
>)
    ensures
        outcome is Ok <==> param_len(num_images as int) <= params@.len(),
        outcome matches Ok(decoded) ==> decoded.0 == spec_intrinsics(params@) && decoded.1@
            == spec_tangents(params@, num_images as nat),
        outcome matches Err(error) ==> error == LayoutError::TooFewParameters,
{
    let given = params.len();
    let needed = match param_count(num_images) {
        Some(needed) => needed,
        None => {
            return Err(LayoutError::TooFewParameters);
        },
    };
    if given < needed {
        return Err(LayoutError::TooFewParameters);
    }
    let intrinsics = Intrinsics { fx: params[0], fy: params[1], cx: params[2], cy: params[3] };
    let mut tangents: Vec<Tangent<T>> = Vec::new();
    let mut image: usize = 0;
    while image < num_images
        invariant
            image <= num_images,
            needed == param_len(num_images as int),
            needed <= params@.len(),
            tangents@.len() == image,
            forall|i: int| 0 <= i < image ==> #[trigger] tangents@[i] == spec_tangent(params@, i),
        decreases num_images - image,
    {
        let at = 4 + 6 * image;
        tangents.push(
            Tangent {
                tx: params[at],
                ty: params[at + 1],
                tz: params[at + 2],
                wx: params[at + 3],
                wy: params[at + 4],
                wz: params[at + 5],
            },
        );
        image += 1;
    }
    assert(tangents@ =~= spec_tangents(params@, num_images as nat));
    Ok((intrinsics, tangents))
}

/// Writes the intrinsics and the pose parameters of all images into one flat
/// parameter vector.
pub fn encode_params<T: Copy>(intrinsics: &Intrinsics<T>, tangents: &[Tangent<T>]) -> (outcome: Result<
    Vec<T>,
    LayoutError,
>)
    ensures
        outcome is Ok <==> param_len(tangents@.len() as int) <= usize::MAX,
        outcome matches Ok(params) ==> params@ == spec_encode(*intrinsics, tangents@),
        outcome matches Err(error) ==> error == LayoutError::TooLarge,
{
    if param_count(tangents.len()).is_none() {
        return Err(LayoutError::TooLarge);
    }
    let mut params: Vec<T> = Vec::new();
    params.push(intrinsics.fx);
    params.push(intrinsics.fy);
    params.push(intrinsics.cx);
    params.push(intrinsics.cy);
    let mut image: usize = 0;
    while image < tangents.len()
        invariant
            image <= tangents@.len(),
            param_len(tangents@.len() as int) <= usize::MAX,
            params@.len() == param_len(image as int),
            forall|at: int|
                0 <= at < params@.len() ==> #[trigger] params@[at] == spec_encode(
                    *intrinsics,
                    tangents@,
                )[at],
        decreases tangents.len() - image,
    {
        let tangent = &tangents[image];
        proof {
            lemma_encoded_tangent(*intrinsics, tangents@, image as int);
        }
        params.push(tangent.tx);
        params.push(tangent.ty);
        params.push(tangent.tz);
        params.push(tangent.wx);
        params.push(tangent.wy);
        params.push(tangent.wz);
        image += 1;
    }
    assert(params@ =~= spec_encode(*intrinsics, tangents@));
    Ok(params)
}

/// The six entries that start at the offset of image `image` are the pose
/// parameters of that image, in their order.
pub proof fn lemma_encoded_tangent<T>(intrinsics: Intrinsics<T>, tangents: Seq<Tangent<T>>, image: int)
    requires
        0 <= image < tangents.len(),
    ensures
        tangent_offset(image) + 6 <= spec_encode(intrinsics, tangents).len(),
        spec_tangent(spec_encode(intrinsics, tangents), image) == tangents[image],
{
    let at = tangent_offset(image);
    assert((at - 4) / 6 == image && (at - 4) % 6 == 0);
    assert((at + 1 - 4) / 6 == image && (at + 1 - 4) % 6 == 1);
    assert((at + 2 - 4) / 6 == image && (at + 2 - 4) % 6 == 2);
    assert((at + 3 - 4) / 6 == image && (at + 3 - 4) % 6 == 3);
    assert((at + 4 - 4) / 6 == image && (at + 4 - 4) % 6 == 4);
    assert((at + 5 - 4) / 6 == image && (at + 5 - 4) % 6 == 5);
}

/// Decoding what was encoded gives back the intrinsics and every pose, entry
/// for entry.
pub proof fn lemma_decode_encode<T>(intrinsics: Intrinsics<T>, tangents: Seq<Tangent<T>>)
    ensures
        spec_encode(intrinsics, tangents).len() == param_len(tangents.len() as int),
        spec_intrinsics(spec_encode(intrinsics, tangents)) == intrinsics,
        spec_tangents(spec_encode(intrinsics, tangents), tangents.len()) == tangents,
{
    let params = spec_encode(intrinsics, tangents);
    assert forall|image: int| 0 <= image < tangents.len() implies spec_tangent(params, image)
        == tangents[image] by {
        lemma_encoded_tangent(intrinsics, tangents, image);
    }
    assert(spec_tangents(params, tangents.len()) =~= tangents);
}

/// Encoding what was decoded gives back the parameter vector, short of what
/// it held past the last pose.
pub proof fn lemma_encode_decode<T>(params: Seq<T>, num_images: nat)
    requires
        param_len(num_images as int) <= params.len(),
    ensures
        spec_encode(spec_intrinsics(params), spec_tangents(params, num_images)) == params.subrange(
            0,
            param_len(num_images as int),
        ),
{
    let encoded = spec_encode(spec_intrinsics(params), spec_tangents(params, num_images));
    assert forall|at: int| 0 <= at < encoded.len() implies encoded[at] == params[at] by {
        if at >= 4 {
            let image = (at - 4) / 6;
            let k = (at - 4) % 6;
            assert(at == tangent_offset(image) + k);
            assert(0 <= image < num_images);
        }
    }
    assert(encoded =~= params.subrange(0, param_len(num_images as int)));
}

} // verus!
