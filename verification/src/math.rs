//! Vectors and matrices as they travel to the GPU.
//!
//! Nothing here computes with the numbers: every component is a single
//! precision number kept as its IEEE-754 bit pattern, and is only moved.

use vstd::prelude::*;

verus! {

/// Where the host engine keeps the entry in row `r` of column `c`.
pub open spec fn host_place(r: int, c: int) -> int {
    4 * c + r
}

/// Where the GPU keeps the entry in row `r` of column `c`.
pub open spec fn gpu_place(r: int, c: int) -> int {
    4 * r + (3 - c)
}

/// Two components.
#[derive(Debug, Clone, Copy, PartialEq, Eq, Structural)]
pub struct Vec2 {
    pub x: u32,
    pub y: u32,
}

/// Three components.
#[derive(Debug, Clone, Copy, PartialEq, Eq, Structural)]
pub struct Vec3 {
    pub x: u32,
    pub y: u32,
    pub z: u32,
}

/// Four components.
#[derive(Debug, Clone, Copy, PartialEq, Eq, Structural)]
pub struct Vec4 {
    pub x: u32,
    pub y: u32,
    pub z: u32,
    pub w: u32,
}

impl Vec4 {
    /// Component `i`, counting `x`, `y`, `z`, `w`.
    pub open spec fn component(self, i: int) -> u32 {
        if i == 0 {
            self.x
        } else if i == 1 {
            self.y
        } else if i == 2 {
            self.z
        } else {
            self.w
        }
    }
}

/// A 4×4 matrix in the host engine's convention: four columns.
#[derive(Debug, Clone, Copy, PartialEq, Eq, Structural)]
pub struct Mat4 {
    pub x_axis: Vec4,
    pub y_axis: Vec4,
    pub z_axis: Vec4,
    pub w_axis: Vec4,
}

impl Mat4 {
    /// Column `c`.
    pub open spec fn column(self, c: int) -> Vec4 {
        if c == 0 {
            self.x_axis
        } else if c == 1 {
            self.y_axis
        } else if c == 2 {
            self.z_axis
        } else {
            self.w_axis
        }
    }

    /// The entry in row `r` of column `c`.
    pub open spec fn entry(self, r: int, c: int) -> u32 {
        self.column(c).component(r)
    }

    /// The same matrix, stored the GPU's way.
    pub open spec fn to_gpu(self) -> Matrix4 {
        Matrix4 {
            row0: Vec4 {
                x: self.x_axis.x,
                y: self.y_axis.x,
                z: self.z_axis.x,
                w: self.w_axis.x,
            },
            row1: Vec4 {
                x: self.x_axis.y,
                y: self.y_axis.y,
                z: self.z_axis.y,
                w: self.w_axis.y,
            },
            row2: Vec4 {
                x: self.x_axis.z,
                y: self.y_axis.z,
                z: self.z_axis.z,
                w: self.w_axis.z,
            },
            row3: Vec4 {
                x: self.x_axis.w,
                y: self.y_axis.w,
                z: self.z_axis.w,
                w: self.w_axis.w,
            },
        }
    }

    /// The sixteen entries, column after column.
    pub fn to_cols_array(&self) -> (cells: [u32; 16])
        ensures
            forall|r: int, c: int|
                0 <= r < 4 && 0 <= c < 4 ==> cells@[host_place(r, c)] == self.entry(r, c),
    {
        let x = self.x_axis;
        let y = self.y_axis;
        let z = self.z_axis;
        let w = self.w_axis;
        [x.x, x.y, x.z, x.w, y.x, y.y, y.z, y.w, z.x, z.y, z.z, z.w, w.x, w.y, w.z, w.w]
    }
}

/// A 4×4 matrix in the GPU's convention: four rows.
#[derive(Debug, Clone, Copy, PartialEq, Eq, Structural)]
pub struct Matrix4 {
    pub row0: Vec4,
    pub row1: Vec4,
    pub row2: Vec4,
    pub row3: Vec4,
}

impl Matrix4 {
    /// Row `r`.
    pub open spec fn row(self, r: int) -> Vec4 {
        if r == 0 {
            self.row0
        } else if r == 1 {
            self.row1
        } else if r == 2 {
            self.row2
        } else {
            self.row3
        }
    }

    /// The entry in row `r` and column `c`.
    pub open spec fn entry(self, r: int, c: int) -> u32 {
        self.row(r).component(c)
    }

    /// The same matrix as `m`, stored the GPU's way.
    pub fn from_mat4(m: &Mat4) -> (g: Matrix4)
        ensures
            g == m.to_gpu(),
            forall|r: int, c: int| 0 <= r < 4 && 0 <= c < 4 ==> g.entry(r, c) == m.entry(r, c),
    {
        let x = m.x_axis;
        let y = m.y_axis;
        let z = m.z_axis;
        let w = m.w_axis;
        Matrix4 {
            row0: Vec4 { x: x.x, y: y.x, z: z.x, w: w.x },
            row1: Vec4 { x: x.y, y: y.y, z: z.y, w: w.y },
            row2: Vec4 { x: x.z, y: y.z, z: z.z, w: w.z },
            row3: Vec4 { x: x.w, y: y.w, z: z.w, w: w.w },
        }
    }

    /// The same matrix as `self`, stored the host engine's way.
    pub fn to_mat4(&self) -> (m: Mat4)
        ensures
            forall|r: int, c: int| 0 <= r < 4 && 0 <= c < 4 ==> m.entry(r, c) == self.entry(r, c),
    {
        let r0 = self.row0;
        let r1 = self.row1;
        let r2 = self.row2;
        let r3 = self.row3;
        Mat4 {
            x_axis: Vec4 { x: r0.x, y: r1.x, z: r2.x, w: r3.x },
            y_axis: Vec4 { x: r0.y, y: r1.y, z: r2.y, w: r3.y },
            z_axis: Vec4 { x: r0.z, y: r1.z, z: r2.z, w: r3.z },
            w_axis: Vec4 { x: r0.w, y: r1.w, z: r2.w, w: r3.w },
        }
    }

    /// The sixteen entries as they lie in GPU memory: row after row, and
    /// within a row the last column first.
    pub fn cells(&self) -> (cells: [u32; 16])
        ensures
            forall|r: int, c: int|
                0 <= r < 4 && 0 <= c < 4 ==> cells@[gpu_place(r, c)] == self.entry(r, c),
    {
        let r0 = self.row0;
        let r1 = self.row1;
        let r2 = self.row2;
        let r3 = self.row3;
        [
            r0.w,
            r0.z,
            r0.y,
            r0.x,
            r1.w,
            r1.z,
            r1.y,
            r1.x,
            r2.w,
            r2.z,
            r2.y,
            r2.x,
            r3.w,
            r3.z,
            r3.y,
            r3.x,
        ]
    }
}

/// A matrix that went to the GPU's convention and back is the matrix it was.
pub proof fn lemma_matrix_round_trip(m: Mat4, g: Matrix4, back: Mat4)
    requires
        forall|r: int, c: int| 0 <= r < 4 && 0 <= c < 4 ==> g.entry(r, c) == m.entry(r, c),
        forall|r: int, c: int| 0 <= r < 4 && 0 <= c < 4 ==> back.entry(r, c) == g.entry(r, c),
    ensures
        back == m,
{
    assert forall|c: int| 0 <= c < 4 implies back.column(c) == m.column(c) by {
        assert(back.entry(0, c) == m.entry(0, c));
        assert(back.entry(1, c) == m.entry(1, c));
        assert(back.entry(2, c) == m.entry(2, c));
        assert(back.entry(3, c) == m.entry(3, c));
    }
    assert(back.column(0) == m.column(0));
    assert(back.column(1) == m.column(1));
    assert(back.column(2) == m.column(2));
    assert(back.column(3) == m.column(3));
}

/// The GPU finds at [`gpu_place`] what the host engine keeps at
/// [`host_place`].
pub proof fn lemma_upload_reorders(m: Mat4, cols: Seq<u32>, g: Matrix4, cells: Seq<u32>)
    requires
        forall|r: int, c: int|
            0 <= r < 4 && 0 <= c < 4 ==> cols[host_place(r, c)] == #[trigger] m.entry(r, c),
        forall|r: int, c: int| 0 <= r < 4 && 0 <= c < 4 ==> g.entry(r, c) == m.entry(r, c),
        forall|r: int, c: int|
            0 <= r < 4 && 0 <= c < 4 ==> cells[gpu_place(r, c)] == #[trigger] g.entry(r, c),
    ensures
        forall|r: int, c: int|
            0 <= r < 4 && 0 <= c < 4 ==> cells[#[trigger] gpu_place(r, c)] == cols[host_place(
                r,
                c,
            )],
{
    assert forall|r: int, c: int| 0 <= r < 4 && 0 <= c < 4 implies cells[#[trigger] gpu_place(
        r,
        c,
    )] == cols[host_place(r, c)] by {
        assert(g.entry(r, c) == m.entry(r, c));
    }
}

} // verus!
